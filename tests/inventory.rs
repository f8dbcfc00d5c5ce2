use minceraft::inv::{Enchant, EnchantCategory, EnchantCost, Item, Itemstack, Slot};
use minceraft::nbt_blob::{read_nbt, write_nbt};
use minceraft::types::{Decoder, Encoder};
use minceraft::{Error, FormatError, Reader};

#[derive(Debug, Clone, Copy, PartialEq)]
enum Stone {
    Stone,
    Dirt,
}

impl Item for Stone {
    fn item_id(&self) -> u16 {
        self.id()
    }
    fn has_id(id: u16) -> bool {
        Self::from_id(id).is_some()
    }
    fn id(&self) -> u16 {
        match self {
            Stone::Stone => 1,
            Stone::Dirt => 3,
        }
    }
    fn from_id(id: u16) -> Option<Self> {
        match id {
            1 => Some(Stone::Stone),
            3 => Some(Stone::Dirt),
            _ => None,
        }
    }
    fn name(&self) -> &'static str {
        "stone"
    }
    fn from_name(name: &str) -> Option<Self> {
        if name == "stone" {
            Some(Stone::Stone)
        } else {
            None
        }
    }
    fn display_name(&self) -> &'static str {
        "Stone"
    }
    fn stack_size(&self) -> u32 {
        64
    }
    fn durability(&self) -> Option<u16> {
        None
    }
}

#[derive(Debug, Clone, Copy)]
struct Any;

impl EnchantCategory for Any {
    fn name(&self) -> &'static str {
        "any"
    }
    fn from_name(_name: &str) -> Option<Self> {
        Some(Any)
    }
}

#[derive(Debug, Clone, Copy)]
struct Sharpness;

impl Enchant for Sharpness {
    type EnchantCategory = Any;
    fn id(&self) -> u16 {
        16
    }
    fn from_id(_id: u16) -> Option<Self> {
        Some(Sharpness)
    }
    fn name(&self) -> &'static str {
        "sharpness"
    }
    fn from_name(_name: &str) -> Option<Self> {
        Some(Sharpness)
    }
    fn display_name(&self) -> &'static str {
        "Sharpness"
    }
    fn max_lvl(&self) -> u16 {
        5
    }
    fn min_cost(&self) -> EnchantCost {
        EnchantCost { a: 11, b: -10 }
    }
    fn max_cost(&self) -> EnchantCost {
        EnchantCost { a: 11, b: 10 }
    }
    fn exclude(&self) -> &[Self] {
        &[]
    }
    fn category(&self) -> Any {
        Any
    }
    fn weight(&self) -> u16 {
        10
    }
    fn treasure_only(&self) -> bool {
        false
    }
    fn curse(&self) -> bool {
        false
    }
    fn tradeable(&self) -> bool {
        true
    }
    fn discoverable(&self) -> bool {
        true
    }
}

type S = Slot<Stone, Sharpness>;

#[test]
fn slot_round_trip() {
    let stack = Itemstack::<Stone, Sharpness>::new(Stone::Dirt, 12).unwrap();
    assert!(stack.meta.is_none());
    let slot: S = Slot::Filled(stack);
    let mut w = Vec::new();
    slot.write_to(&mut w).unwrap();
    assert_eq!(w, vec![1, 3, 12, 0]);
    let mut r = Reader::new(&w);
    match S::read_from(&mut r).unwrap() {
        Slot::Filled(s) => {
            assert_eq!(s.item, Stone::Dirt);
            assert_eq!(s.count, 12);
        }
        Slot::Empty => panic!("slot came back empty"),
    }
    let mut w = Vec::new();
    let empty: S = Slot::Empty;
    empty.write_to(&mut w).unwrap();
    assert_eq!(w, vec![0]);
    let mut r = Reader::new(&w);
    assert!(matches!(S::read_from(&mut r).unwrap(), Slot::Empty));
}

#[test]
fn slot_with_unknown_item() {
    let b = vec![1, 2, 1, 0];
    let mut r = Reader::new(&b);
    assert_eq!(S::read_from(&mut r).err(), Some(Error::Format(FormatError::UnknownItem(2))));
}

#[test]
fn slot_skips_nbt_data() {
    let mut blob = nbt::Blob::new();
    blob.insert("Damage", nbt::Value::Short(3)).unwrap();
    let mut w = vec![1, 1, 5];
    write_nbt(&mut w, &blob).unwrap();
    w.push(0x42);
    let mut r = Reader::new(&w);
    assert!(matches!(S::read_from(&mut r).unwrap(), Slot::Filled(_)));
    assert_eq!(r.remaining(), 1);
}

#[test]
fn nbt_round_trip() {
    let mut blob = nbt::Blob::new();
    blob.insert("name", "Bananrama").unwrap();
    let mut w = Vec::new();
    write_nbt(&mut w, &blob).unwrap();
    let mut expected = Vec::new();
    blob.to_writer(&mut expected).unwrap();
    assert_eq!(w, expected);
    w.push(9);
    let mut r = Reader::new(&w);
    let back = read_nbt(&mut r).unwrap();
    assert_eq!(back, blob);
    assert_eq!(r.remaining(), 1);
}

#[test]
fn invalid_nbt_is_format_error() {
    let b = vec![0x01, 0x00];
    let mut r = Reader::new(&b);
    assert_eq!(read_nbt(&mut r).err(), Some(Error::Format(FormatError::InvalidNbt)));
}

#[test]
fn nbt_with_negative_count_is_refused() {
    let b = vec![0x0a, 0x00, 0x00, 0x07, 0x00, 0x00, 0xff, 0xff, 0xff, 0xff];
    let mut r = Reader::new(&b);
    assert_eq!(read_nbt(&mut r).err(), Some(Error::Format(FormatError::InvalidNbt)));
    let list = vec![0x0a, 0x00, 0x00, 0x09, 0x00, 0x00, 0x01, 0x7f, 0xff, 0xff, 0xff, 0x00];
    let mut r = Reader::new(&list);
    assert_eq!(read_nbt(&mut r).err(), Some(Error::Format(FormatError::InvalidNbt)));
}

#[test]
fn deeply_nested_nbt_is_refused() {
    let mut b = vec![0x0a, 0x00, 0x00];
    for _ in 0..100000 {
        b.extend_from_slice(&[0x0a, 0x00, 0x00]);
    }
    for _ in 0..100001 {
        b.push(0x00);
    }
    let mut r = Reader::new(&b);
    assert_eq!(read_nbt(&mut r).err(), Some(Error::Format(FormatError::InvalidNbt)));
    let slot = {
        let mut s = vec![1, 1, 5];
        s.extend_from_slice(&b);
        s
    };
    let mut r = Reader::new(&slot);
    assert_eq!(S::read_from(&mut r).err(), Some(Error::Format(FormatError::InvalidNbt)));
}

#[test]
fn moderately_nested_nbt_reads() {
    let mut b = vec![0x0a, 0x00, 0x00];
    for _ in 0..100 {
        b.extend_from_slice(&[0x0a, 0x00, 0x00]);
    }
    for _ in 0..101 {
        b.push(0x00);
    }
    b.push(0x33);
    let mut r = Reader::new(&b);
    assert!(read_nbt(&mut r).is_ok());
    assert_eq!(r.remaining(), 1);
}
