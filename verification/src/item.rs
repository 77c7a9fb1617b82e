//! Menu items and the rules their fields must satisfy.

use vstd::prelude::*;

verus! {

/// The mathematical value of a menu item.
pub struct ItemView {
    pub id: int,
    pub name: Seq<char>,
    /// Price in minor currency units (hundredths).
    pub price: int,
}

/// A single sellable entry. The price is an exact amount in minor currency
/// units (hundredths), never a binary fraction.
#[derive(Debug, PartialEq, Eq)]
pub struct MenuItem {
    pub id: u64,
    pub name: String,
    pub price: i64,
}

impl View for MenuItem {
    type V = ItemView;

    open spec fn view(&self) -> ItemView {
        ItemView { id: self.id as int, name: self.name@, price: self.price as int }
    }
}

impl Clone for MenuItem {
    fn clone(&self) -> (copy: MenuItem)
        ensures
            copy == *self,
    {
        MenuItem { id: self.id, name: self.name.clone(), price: self.price }
    }
}

/// The views of a run of items, in the same order.
pub open spec fn item_views(items: Seq<MenuItem>) -> Seq<ItemView> {
    items.map_values(|m: MenuItem| m@)
}

/// Whether `c` is a Unicode white-space character.
pub open spec fn is_space(c: char) -> bool {
    let u = c as u32;
    ||| 0x09 <= u <= 0x0D
    ||| u == 0x20
    ||| u == 0x85
    ||| u == 0xA0
    ||| u == 0x1680
    ||| 0x2000 <= u <= 0x200A
    ||| u == 0x2028
    ||| u == 0x2029
    ||| u == 0x202F
    ||| u == 0x205F
    ||| u == 0x3000
}

/// A name is acceptable when something is left of it once white space is
/// trimmed away, that is, when it holds a character that is not white space.
pub open spec fn valid_name(name: Seq<char>) -> bool {
    exists|i: int| 0 <= i < name.len() && !is_space(#[trigger] name[i])
}

/// A price is acceptable when it is not negative.
pub open spec fn valid_price(price: int) -> bool {
    price >= 0
}

/// The fields a caller supplies are acceptable together.
pub open spec fn valid_fields(name: Seq<char>, price: int) -> bool {
    valid_name(name) && valid_price(price)
}

impl ItemView {
    /// A stored item has a positive identifier and acceptable fields.
    pub open spec fn valid(self) -> bool {
        self.id >= 1 && valid_fields(self.name, self.price)
    }
}

pub fn is_whitespace(c: char) -> (r: bool)
    ensures
        r == is_space(c),
{
    let u: u32 = c as u32;
    (0x09 <= u && u <= 0x0D) || u == 0x20 || u == 0x85 || u == 0xA0 || u == 0x1680 || (0x2000 <= u
        && u <= 0x200A) || u == 0x2028 || u == 0x2029 || u == 0x202F || u == 0x205F || u == 0x3000
}

pub fn name_is_valid(name: &str) -> (r: bool)
    ensures
        r == valid_name(name@),
{
    for c in it: name.chars()
        invariant
            it.seq() == name@,
            forall|j: int| 0 <= j < it.index() ==> is_space(#[trigger] name@[j]),
    {
        if !is_whitespace(c) {
            return true;
        }
    }
    false
}

pub fn fields_are_valid(name: &str, price: i64) -> (r: bool)
    ensures
        r == valid_fields(name@, price as int),
{
    price >= 0 && name_is_valid(name)
}

} // verus!
