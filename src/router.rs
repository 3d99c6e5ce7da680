use vstd::prelude::*;

verus! {

/// One subscription: frames from `source` of type `message_id` go to the
/// handler slots in `receivers`, in that order.
pub struct Route {
    pub source: u16,
    pub message_id: u16,
    pub receivers: Vec<usize>,
}

/// A worker's dispatch table: routes in declaration order.
pub struct RouteTable {
    routes: Vec<Route>,
}

/// Receivers of the first route in `routes` whose key is `(source, message_id)`;
/// nothing when no route matches.
pub open spec fn lookup(routes: Seq<(u16, u16, Seq<usize>)>, source: u16, message_id: u16) -> Seq<usize>
    decreases routes.len(),
{
    if routes.len() == 0 {
        Seq::empty()
    } else if routes[0].0 == source && routes[0].1 == message_id {
        routes[0].2
    } else {
        lookup(routes.drop_first(), source, message_id)
    }
}

impl View for RouteTable {
    type V = Seq<(u16, u16, Seq<usize>)>;

    closed spec fn view(&self) -> Self::V {
        Seq::new(
            self.routes@.len(),
            |i: int| (self.routes@[i].source, self.routes@[i].message_id, self.routes@[i].receivers@),
        )
    }
}

impl RouteTable {
    pub fn new() -> (r: RouteTable)
        ensures
            r@ == Seq::<(u16, u16, Seq<usize>)>::empty(),
    {
        let r = RouteTable { routes: Vec::new() };
        assert(r@ =~= Seq::<(u16, u16, Seq<usize>)>::empty());
        r
    }

    /// Declares the next route.
    pub fn add(&mut self, source: u16, message_id: u16, receivers: Vec<usize>)
        ensures
            final(self)@ == old(self)@.push((source, message_id, receivers@)),
    {
        let ghost rv = receivers@;
        self.routes.push(Route { source, message_id, receivers });
        assert(self@ =~= old(self)@.push((source, message_id, rv)));
    }

    pub fn len(&self) -> (r: usize)
        ensures
            r == self@.len(),
    {
        self.routes.len()
    }

    /// The handler slots subscribed to `(source, message_id)`, in declaration order.
    pub fn receivers(&self, source: u16, message_id: u16) -> (r: Vec<usize>)
        ensures
            r@ == lookup(self@, source, message_id),
    {
        let mut i: usize = 0;
        assert(self@.subrange(0, self@.len() as int) =~= self@);
        while i < self.routes.len()
            invariant
                i <= self@.len(),
                lookup(self@, source, message_id) == lookup(self@.subrange(i as int, self@.len() as int), source, message_id),
            decreases self@.len() - i,
        {
            let ghost rest = self@.subrange(i as int, self@.len() as int);
            assert(rest[0] == self@[i as int]);
            if self.routes[i].source == source && self.routes[i].message_id == message_id {
                return self.routes[i].receivers.clone();
            }
            assert(rest.drop_first() =~= self@.subrange(i + 1, self@.len() as int));
            i = i + 1;
        }
        assert(self@.subrange(i as int, self@.len() as int).len() == 0);
        Vec::new()
    }
}

} // verus!
