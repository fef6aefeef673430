//! Metas: the names under which instances are kept, and how a meta is
//! written as a string.
use vstd::prelude::*;

verus! {

/// What kind of data a meta stands for.
#[derive(Debug, Clone, Copy, PartialEq, Eq, Structural)]
pub enum MetaType {
    Business,
    System,
    Dynamic,
    Null,
    Multi,
}

/// The prefix that a meta string of this type starts with.
pub open spec fn prefix_of(t: MetaType) -> Seq<char> {
    match t {
        MetaType::Business => "/B"@,
        MetaType::System => "/S"@,
        MetaType::Dynamic => "/D"@,
        MetaType::Null => "/N"@,
        MetaType::Multi => "/M"@,
    }
}

impl MetaType {
    /// The prefix that a meta string of this type starts with.
    pub fn get_prefix(&self) -> (r: &'static str)
        ensures
            r@ == prefix_of(*self),
    {
        match self {
            MetaType::Business => "/B",
            MetaType::System => "/S",
            MetaType::Dynamic => "/D",
            MetaType::Null => "/N",
            MetaType::Multi => "/M",
        }
    }
}

/// The character that stands for a decimal digit.
pub open spec fn digit_char(d: nat) -> char {
    (48 + d) as char
}

/// The decimal digits of a natural number, most significant first.
pub open spec fn decimal_digits(n: nat) -> Seq<char>
    decreases n,
{
    if n < 10 {
        seq![digit_char(n)]
    } else {
        decimal_digits(n / 10) + seq![digit_char(n % 10)]
    }
}

/// An integer written in decimal, with a leading minus sign when negative.
pub open spec fn decimal(v: int) -> Seq<char> {
    if v < 0 {
        seq!['-'] + decimal_digits((-v) as nat)
    } else {
        decimal_digits(v as nat)
    }
}

/// std's decimal rendering of an `i32` (`ToString`, through `Display`).
/// Claimed: the text is the number in decimal, with a leading `-` when it is
/// negative, as `Display` for integers is documented to write it.
#[verifier::external_body]
fn decimal_string(v: i32) -> (r: String)
    ensures
        r@ == decimal(v as int),
{
    v.to_string()
}

/// A meta: its type, its key (which starts with `/`), its version, and, for a
/// state meta, the names of the states that it defines.
#[derive(Debug, Clone)]
pub struct Meta {
    pub meta_type: MetaType,
    pub key: String,
    pub version: i32,
    pub states: Option<Vec<String>>,
}

/// How a meta is written: its type's prefix, its key, a colon and its version.
pub open spec fn meta_string_of(m: &Meta) -> Seq<char> {
    prefix_of(m.meta_type) + m.key@ + ":"@ + decimal(m.version as int)
}

impl Meta {
    /// The meta's type.
    pub fn get_meta_type(&self) -> (r: MetaType)
        ensures
            r == self.meta_type,
    {
        self.meta_type
    }

    /// Whether the meta defines states.
    pub fn is_state(&self) -> (r: bool)
        ensures
            r == self.states.is_some(),
    {
        self.states.is_some()
    }

    /// The meta written as a string, such as `/B/order:1`.
    pub fn meta_string(&self) -> (r: String)
        ensures
            r@ == meta_string_of(self),
    {
        let prefix = self.meta_type.get_prefix();
        let mut s = String::from_str(prefix);
        s.append(self.key.as_str());
        let colon = ":";
        proof {
            reveal_strlit(":");
        }
        s.append(colon);
        let version = decimal_string(self.version);
        s.append(version.as_str());
        s
    }
}

} // verus!
