/// Page size of the usual targets.
const PAGE_SIZE: usize = 4096;

#[derive(PartialEq, Eq, Debug, Clone, Copy)]
pub enum TestEnum {
    VariantA,
    VariantB,
}

impl TestEnum {
    pub const fn from_u16(value: u16) -> Self {
        match value {
            1 => TestEnum::VariantA,
            2 => TestEnum::VariantB,
            _ => panic!(),
        }
    }

    pub const fn to_u16(self) -> u16 {
        match self {
            TestEnum::VariantA => 1,
            TestEnum::VariantB => 2,
        }
    }
}

impl From<TestEnum> for u16 {
    fn from(value: TestEnum) -> Self {
        value.to_u16()
    }
}

impl From<u16> for TestEnum {
    fn from(value: u16) -> Self {
        TestEnum::from_u16(value)
    }
}

#[test]
fn test_messenger_id_enum() {
    assert_eq!(TestEnum::VariantA, TestEnum::from_u16(1));
    assert_eq!(TestEnum::VariantB, TestEnum::from_u16(2));
    assert_eq!(1, u16::from(TestEnum::VariantA));
    assert_eq!(2, u16::from(TestEnum::VariantB));
    const X: u16 = TestEnum::VariantA.to_u16();
    assert_eq!(1, X);
    const U16: u16 = 1;
    assert_eq!(TestEnum::from_u16(U16), TestEnum::VariantA);
}

#[test]
fn test_cast_from_zero() {
    let mut data: [u8; 2] = [0; 2];
    data.copy_from_slice(&TestEnum::VariantA.to_u16().to_ne_bytes());
    let read = TestEnum::from_u16(u16::from_ne_bytes(data));
    assert_eq!(read, TestEnum::VariantA);
    assert_ne!(read, TestEnum::VariantB);
}

#[test]
fn ids_round_trip_through_frame_header() {
    let mut bus = rust_messenger::message_bus::CircularBus::from_capacity(4096, PAGE_SIZE);
    bus.write_bytes(TestEnum::VariantB.into(), TestEnum::VariantA.into(), &[]);
    let (h, b) = bus.read(0).unwrap();
    assert_eq!(TestEnum::from(h.source), TestEnum::VariantB);
    assert_eq!(TestEnum::from(h.message_id), TestEnum::VariantA);
    assert_eq!(h.size, 0);
    assert!(b.is_empty());
}
