//! Items, enchantments and inventory slots.
use crate::error::{Error, FormatError};
use crate::nbt_blob::{nbt_len, skip_nbt};
use crate::raw::{lemma_var_end_bound, read_bool, read_byte, read_var_int, write_bool, write_byte, write_var_int};
use crate::reader::Reader;
use crate::types::{Decoder, Encoder};
use crate::wire::{bool_byte, fixed_bytes, parse_bool, parse_signed, parse_var_int, var_int_bytes};
use vstd::prelude::*;

verus! {

/// An item type; implemented by a table of all the items of a game version.
pub trait Item: Sized {
    /// The item's numeric id.
    spec fn item_id(&self) -> u16;

    /// Whether some item has the id `id`.
    spec fn has_id(id: u16) -> bool;

    fn id(&self) -> (r: u16)
        ensures
            r == self.item_id(),
    ;

    /// The item with the id `id`, where there is one.
    fn from_id(id: u16) -> (r: Option<Self>)
        ensures
            r is Some <==> Self::has_id(id),
            r matches Some(x) ==> x.item_id() == id,
    ;

    fn name(&self) -> &'static str;

    fn from_name(name: &str) -> Option<Self>;

    fn display_name(&self) -> &'static str;

    fn stack_size(&self) -> u32;

    fn durability(&self) -> Option<u16>;
}

/// The two numbers of an enchantment's cost formula.
#[derive(Debug, Clone, Copy, PartialEq, Eq)]
pub struct EnchantCost {
    pub a: i8,
    pub b: i8,
}

/// A category of enchantments.
pub trait EnchantCategory: Sized {
    fn name(&self) -> &'static str;

    fn from_name(name: &str) -> Option<Self>;
}

/// An enchantment type; implemented by a table of all the enchantments of a
/// game version.
pub trait Enchant: Sized {
    type EnchantCategory: EnchantCategory;

    fn id(&self) -> u16;

    fn from_id(id: u16) -> Option<Self>;

    fn name(&self) -> &'static str;

    fn from_name(name: &str) -> Option<Self>;

    fn display_name(&self) -> &'static str;

    fn max_lvl(&self) -> u16;

    fn min_cost(&self) -> EnchantCost;

    fn max_cost(&self) -> EnchantCost;

    fn exclude(&self) -> &[Self];

    fn category(&self) -> Self::EnchantCategory;

    fn weight(&self) -> u16;

    fn treasure_only(&self) -> bool;

    fn curse(&self) -> bool;

    fn tradeable(&self) -> bool;

    fn discoverable(&self) -> bool;
}

/// Extra data of a stack of items.
#[derive(Debug, Clone, Copy)]
pub struct ItemStackMetaData<T> {
    pub a: T,
}

/// A number of items of one type.
#[derive(Debug, Clone, Copy)]
pub struct Itemstack<T: Item, U: Enchant> {
    pub item: T,
    pub count: i8,
    pub meta: Option<ItemStackMetaData<U>>,
}

impl<T: Item, U: Enchant> Itemstack<T, U> {
    /// A stack of `count` of `item`, with no extra data.
    pub fn new(item: T, count: i8) -> (r: Result<Self, Error>)
        ensures
            r matches Ok(s) && s.item == item && s.count == count && s.meta is None,
    {
        Ok(Itemstack { item, count, meta: None })
    }
}

/// An inventory slot: empty, or holding a stack.
#[derive(Debug, Clone, Copy)]
pub enum Slot<I: Item, E: Enchant> {
    Empty,
    Filled(Itemstack<I, E>),
}

impl<I: Item, E: Enchant> DeepView for Slot<I, E> {
    /// The item id and count of a filled slot.
    type V = Option<(u16, i8)>;

    open spec fn deep_view(&self) -> Option<(u16, i8)> {
        match self {
            Slot::Empty => None,
            Slot::Filled(s) => Some((s.item.item_id(), s.count)),
        }
    }
}

/// The bytes that a slot's NBT data takes: a single 0 where there is none.
pub open spec fn slot_nbt_len(b: Seq<u8>) -> Option<nat> {
    if b.len() == 0 {
        None
    } else if b[0] == 0 {
        Some(1)
    } else {
        nbt_len(b)
    }
}

impl<I: Item, E: Enchant> Encoder for Slot<I, E> {
    open spec fn encodable(v: Option<(u16, i8)>) -> bool {
        true
    }

    /// A presence flag; for a filled slot, the item id as a VarInt, the
    /// count, and a 0 for no NBT data.
    open spec fn encoding(v: Option<(u16, i8)>) -> Seq<u8> {
        match v {
            None => seq![bool_byte(false)],
            Some((id, count)) => seq![bool_byte(true)] + var_int_bytes(id as i32) + fixed_bytes(count as int, 1)
                + seq![0u8],
        }
    }

    fn write_to(&self, w: &mut Vec<u8>) -> (r: Result<(), Error>) {
        match self {
            Slot::Empty => {
                write_bool(w, false)?;
                assert(w@ =~= old(w)@ + seq![bool_byte(false)]);
            },
            Slot::Filled(s) => {
                write_bool(w, true)?;
                write_var_int(w, s.item.id() as i32)?;
                write_byte(w, s.count)?;
                w.push(0u8);
                assert(w@ =~= old(w)@ + Self::encoding(self.deep_view()));
            },
        }
        Ok(())
    }
}

impl<I: Item, E: Enchant> Decoder for Slot<I, E> {
    open spec fn parse(b: Seq<u8>) -> Option<(Option<(u16, i8)>, nat)> {
        match parse_bool(b) {
            Err(_) => None,
            Ok((false, n)) => Some((None, n)),
            Ok((true, n)) => match parse_var_int(b.skip(n as int)) {
                Err(_) => None,
                Ok((d, k)) => if d < 0 || d > 0xffff || !I::has_id(d as u16) {
                    None
                } else {
                    match parse_signed(b.skip((n + k) as int), 1) {
                        Err(_) => None,
                        Ok((c, j)) => match slot_nbt_len(b.skip((n + k + j) as int)) {
                            None => None,
                            Some(m) => if n + k + j + m <= b.len() {
                                Some((Some((d as u16, c as i8)), n + k + j + m))
                            } else {
                                None
                            },
                        },
                    }
                },
            },
        }
    }

    /// The error of the first part that fails.
    open spec fn parse_error(b: Seq<u8>) -> Error {
        match parse_bool(b) {
            Err(e) => e,
            Ok((false, _)) => Error::UnexpectedEof,
            Ok((true, n)) => match parse_var_int(b.skip(n as int)) {
                Err(e) => e,
                Ok((d, k)) => if d < 0 || d > 0xffff || !I::has_id(d as u16) {
                    Error::Format(FormatError::UnknownItem(d))
                } else {
                    match parse_signed(b.skip((n + k) as int), 1) {
                        Err(e) => e,
                        Ok((_, j)) => if b.skip((n + k + j) as int).len() == 0 {
                            Error::UnexpectedEof
                        } else {
                            Error::Format(FormatError::InvalidNbt)
                        },
                    }
                },
            },
        }
    }

    fn read_from(r: &mut Reader) -> (res: Result<Slot<I, E>, Error>) {
        let ghost b = r@;
        let present = read_bool(r)?;
        if !present {
            return Ok(Slot::Empty);
        }
        let ghost b1 = r@;
        proof {
            lemma_var_end_bound(b1, 0, 5);
            assert(b1 =~= b.skip(1));
        }
        let d = read_var_int(r)?;
        if d < 0 || d > 0xffff {
            return Err(Error::Format(FormatError::UnknownItem(d)));
        }
        let item = match I::from_id(d as u16) {
            Some(item) => item,
            None => return Err(Error::Format(FormatError::UnknownItem(d))),
        };
        let ghost k: nat = (b1.len() - r@.len()) as nat;
        assert(r@ =~= b.skip((1 + k) as int));
        let count = read_byte(r)?;
        assert(r@ =~= b.skip((1 + k + 1) as int));
        match r.peek_u8() {
            Some(0) => {
                let _ = r.read_u8();
                assert(r@ =~= b.skip((1 + k + 1 + 1) as int));
            },
            Some(_) => {
                let ghost b3 = r@;
                skip_nbt(r)?;
                proof {
                    let m = (b3.len() - r@.len()) as nat;
                    assert(r@ =~= b.skip((1 + k + 1 + m) as int));
                }
            },
            None => {
                return Err(Error::UnexpectedEof);
            },
        }
        Ok(Slot::Filled(Itemstack { item, count, meta: None }))
    }
}

} // verus!
