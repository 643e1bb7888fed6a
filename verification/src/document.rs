//! JSON documents: the tree that the registry's answer is read into, and the
//! lenient way of looking into it, in which whatever is missing or of another
//! kind reads as nothing.

use vstd::prelude::*;
use vstd::string::*;

use crate::errors::{Error, Refusal};
use crate::text::texts;

verus! {

/// A JSON document as a mathematical value.
pub enum Tree {
    Null,
    Boolean(bool),
    /// `mantissa` times ten to the power `exponent`, negated unless `positive`.
    Number { positive: bool, mantissa: u64, exponent: i16 },
    Text(Seq<char>),
    Array(Seq<Tree>),
    /// The entries in the order of the document.
    Object(Seq<(Seq<char>, Tree)>),
}

/// A JSON document.
#[derive(Debug)]
pub enum Json {
    Null,
    Boolean(bool),
    /// `mantissa` times ten to the power `exponent`, negated unless `positive`.
    Number { positive: bool, mantissa: u64, exponent: i16 },
    Text(String),
    Array(Vec<Json>),
    /// The entries in the order of the document.
    Object(Vec<(String, Json)>),
}

/// The mathematical value of a document.
pub open spec fn tree_of(doc: Json) -> Tree
    decreases doc,
{
    match doc {
        Json::Null => Tree::Null,
        Json::Boolean(b) => Tree::Boolean(b),
        Json::Number { positive, mantissa, exponent } => Tree::Number {
            positive,
            mantissa,
            exponent,
        },
        Json::Text(text) => Tree::Text(text@),
        Json::Array(items) => Tree::Array(trees_of(items@)),
        Json::Object(entries) => Tree::Object(entries_of(entries@)),
    }
}

/// The values of the members of an array, in their order.
pub open spec fn trees_of(items: Seq<Json>) -> Seq<Tree>
    decreases items,
{
    if items.len() == 0 {
        Seq::empty()
    } else {
        trees_of(items.drop_last()).push(tree_of(items.last()))
    }
}

/// The keys and values of the entries of an object, in their order.
pub open spec fn entries_of(entries: Seq<(String, Json)>) -> Seq<(Seq<char>, Tree)>
    decreases entries,
{
    if entries.len() == 0 {
        Seq::empty()
    } else {
        entries_of(entries.drop_last()).push((entries.last().0@, tree_of(entries.last().1)))
    }
}

impl View for Json {
    type V = Tree;

    open spec fn view(&self) -> Tree {
        tree_of(*self)
    }
}

/// The value of an array holds the value of each member at the member's
/// place.
pub proof fn lemma_trees_of(items: Seq<Json>)
    ensures
        trees_of(items).len() == items.len(),
        forall|i: int| 0 <= i < items.len() ==> #[trigger] trees_of(items)[i] == items[i]@,
    decreases items.len(),
{
    if items.len() > 0 {
        lemma_trees_of(items.drop_last());
    }
}

/// The value of an object holds the key and the value of each entry at the
/// entry's place.
pub proof fn lemma_entries_of(entries: Seq<(String, Json)>)
    ensures
        entries_of(entries).len() == entries.len(),
        forall|i: int|
            0 <= i < entries.len() ==> #[trigger] entries_of(entries)[i] == (
                entries[i].0@,
                entries[i].1@,
            ),
    decreases entries.len(),
{
    if entries.len() > 0 {
        lemma_entries_of(entries.drop_last());
    }
}

impl Tree {
    /// The value of the first entry from `from` on whose key is `key`; `Null`
    /// where there is none.
    pub open spec fn lookup(entries: Seq<(Seq<char>, Tree)>, key: Seq<char>, from: int) -> Tree
        decreases entries.len() - from,
    {
        if from < 0 || from >= entries.len() {
            Tree::Null
        } else if entries[from].0 == key {
            entries[from].1
        } else {
            Self::lookup(entries, key, from + 1)
        }
    }

    /// What an object holds under `key`. `Null` where the key is missing and
    /// where this is no object.
    pub open spec fn field(self, key: Seq<char>) -> Tree {
        match self {
            Tree::Object(entries) => Self::lookup(entries, key, 0),
            _ => Tree::Null,
        }
    }

    /// The members of an array; none where this is no array.
    pub open spec fn members(self) -> Seq<Tree> {
        match self {
            Tree::Array(items) => items,
            _ => Seq::empty(),
        }
    }

    /// The entries of an object; none where this is no object.
    pub open spec fn entries(self) -> Seq<(Seq<char>, Tree)> {
        match self {
            Tree::Object(entries) => entries,
            _ => Seq::empty(),
        }
    }

    /// The member of an array at `index`. `Null` where the array is shorter
    /// and where this is no array.
    pub open spec fn element(self, index: int) -> Tree {
        if 0 <= index < self.members().len() {
            self.members()[index]
        } else {
            Tree::Null
        }
    }

    /// The characters of a string; none where this is no string.
    pub open spec fn text(self) -> Seq<char> {
        match self {
            Tree::Text(text) => text,
            _ => Seq::empty(),
        }
    }

    /// The value of a number that is written as a whole number, without sign
    /// and without exponent; zero for every other number and where this is no
    /// number.
    pub open spec fn count(self) -> u64 {
        match self {
            Tree::Number { positive, mantissa, exponent } => if positive && exponent == 0 {
                mantissa
            } else {
                0
            },
            _ => 0,
        }
    }

    /// Whether this is the boolean `true`.
    pub open spec fn is_true(self) -> bool {
        self == Tree::Boolean(true)
    }

    /// How many arrays and objects that are not empty lie inside each other
    /// at the deepest place of the document.
    pub open spec fn depth(self) -> nat
        decreases self,
    {
        match self {
            Tree::Array(items) => if items.len() == 0 {
                0
            } else {
                1 + Self::deepest(items)
            },
            Tree::Object(entries) => if entries.len() == 0 {
                0
            } else {
                1 + Self::deepest_value(entries)
            },
            _ => 0,
        }
    }

    /// The depth of the deepest of `items`.
    pub open spec fn deepest(items: Seq<Tree>) -> nat
        decreases items,
    {
        if items.len() == 0 {
            0
        } else if Self::deepest(items.drop_last()) < items.last().depth() {
            items.last().depth()
        } else {
            Self::deepest(items.drop_last())
        }
    }

    /// The depth of the deepest value among `entries`.
    pub open spec fn deepest_value(entries: Seq<(Seq<char>, Tree)>) -> nat
        decreases entries,
    {
        if entries.len() == 0 {
            0
        } else if Self::deepest_value(entries.drop_last()) < entries.last().1.depth() {
            entries.last().1.depth()
        } else {
            Self::deepest_value(entries.drop_last())
        }
    }

    /// Whether the document can be written over several lines with an
    /// indentation of `spaces`: the widest indentation, of the deepest place,
    /// must be one that sixteen bits count.
    pub open spec fn fits(self, spaces: u16) -> bool {
        self.depth() * spaces <= u16::MAX && self.depth() <= u16::MAX
    }
}

/// How many digits of a fraction the reader of documents can take into a
/// mantissa: it counts them down from zero in sixteen bits.
pub open spec fn digit_limit() -> nat {
    32768
}

/// Whether a byte is a decimal digit.
pub open spec fn is_digit(byte: u8) -> bool {
    48 <= byte <= 57
}

/// Where the reader of documents stands in a text, as far as its count of
/// digits goes. The only count that can run over is that of a fraction behind
/// a lone zero: behind any other whole part the mantissa is full after a
/// score of digits, and the reader takes no more.
#[derive(Clone, Copy, Debug)]
pub enum Scan {
    /// Outside of strings, and not behind a digit.
    Outside,
    /// In a number that does not start with a lone zero, or behind more
    /// than the zero.
    Digits,
    /// Behind a zero that starts a number.
    Zero,
    /// In the fraction behind a lone zero: the mantissa that the reader has
    /// by now, and how many digits it took into it.
    Fraction { mantissa: u64, taken: u32 },
    /// Inside a string.
    Text,
    /// Behind a backslash inside a string.
    Escape,
    /// Behind a fraction of which the reader took more digits than it can
    /// count.
    Overrun,
}

/// Where the reader stands behind a byte that continues no number.
pub open spec fn enter(byte: u8) -> Scan {
    if byte == 34 {
        Scan::Text
    } else if byte == 48 {
        Scan::Zero
    } else if is_digit(byte) {
        Scan::Digits
    } else {
        Scan::Outside
    }
}

/// Where the reader stands behind one more byte. A string ends at a quote
/// that no backslash stands before. A fraction starts at a point behind a
/// lone zero. Of its digits the reader takes each that the mantissa, times
/// ten, still has room for in sixty-four bits, and passes over the others.
pub open spec fn step(state: Scan, byte: u8) -> Scan {
    match state {
        Scan::Overrun => Scan::Overrun,
        Scan::Text => if byte == 34 {
            Scan::Outside
        } else if byte == 92 {
            Scan::Escape
        } else {
            Scan::Text
        },
        Scan::Escape => Scan::Text,
        Scan::Fraction { mantissa, taken } => if !is_digit(byte) {
            enter(byte)
        } else if mantissa * 10 + (byte - 48) > u64::MAX {
            state
        } else if taken >= digit_limit() {
            Scan::Overrun
        } else {
            Scan::Fraction {
                mantissa: (mantissa * 10 + (byte - 48)) as u64,
                taken: (taken + 1) as u32,
            }
        },
        Scan::Zero => if byte == 46 {
            Scan::Fraction { mantissa: 0, taken: 0 }
        } else if is_digit(byte) {
            Scan::Digits
        } else {
            enter(byte)
        },
        Scan::Digits => if is_digit(byte) || byte == 46 {
            Scan::Digits
        } else {
            enter(byte)
        },
        Scan::Outside => enter(byte),
    }
}

/// Where the reader stands behind the first `upto` bytes.
pub open spec fn scanned(bytes: Seq<u8>, upto: int) -> Scan
    decreases upto,
{
    if upto <= 0 || upto > bytes.len() {
        Scan::Outside
    } else {
        step(scanned(bytes, upto - 1), bytes[upto - 1])
    }
}

/// Whether the reader can count the digits of every fraction that it takes
/// in: nowhere outside of strings a lone zero has a fraction of which more
/// than `digit_limit` digits go into the mantissa.
pub open spec fn countable(bytes: Seq<u8>) -> bool {
    !(scanned(bytes, bytes.len() as int) is Overrun)
}

fn advance(state: Scan, byte: u8) -> (next: Scan)
    ensures
        next == step(state, byte),
{
    let digit: bool = 48 <= byte && byte <= 57;
    let fresh = if byte == 34 {
        Scan::Text
    } else if byte == 48 {
        Scan::Zero
    } else if digit {
        Scan::Digits
    } else {
        Scan::Outside
    };
    match state {
        Scan::Overrun => Scan::Overrun,
        Scan::Text => {
            if byte == 34 {
                Scan::Outside
            } else if byte == 92 {
                Scan::Escape
            } else {
                Scan::Text
            }
        },
        Scan::Escape => Scan::Text,
        Scan::Fraction { mantissa, taken } => {
            if !digit {
                fresh
            } else {
                let wide: u128 = mantissa as u128 * 10 + (byte - 48) as u128;
                if wide > u64::MAX as u128 {
                    state
                } else if taken >= 32768 {
                    Scan::Overrun
                } else {
                    Scan::Fraction { mantissa: wide as u64, taken: taken + 1 }
                }
            }
        },
        Scan::Zero => {
            if byte == 46 {
                Scan::Fraction { mantissa: 0, taken: 0 }
            } else if digit {
                Scan::Digits
            } else {
                fresh
            }
        },
        Scan::Digits => {
            if digit || byte == 46 {
                Scan::Digits
            } else {
                fresh
            }
        },
        Scan::Outside => fresh,
    }
}

/// Tells whether the reader can count the digits of every fraction that it
/// takes in.
pub fn is_countable(text: &str) -> (yes: bool)
    ensures
        yes == countable(text.spec_bytes()),
{
    let bytes = text.as_bytes();
    let mut state = Scan::Outside;
    let mut i: usize = 0;
    while i < bytes.len()
        invariant
            i <= bytes.len(),
            bytes@ == text.spec_bytes(),
            state == scanned(bytes@, i as int),
        decreases bytes.len() - i,
    {
        state = advance(state, bytes[i]);
        i += 1;
    }
    match state {
        Scan::Overrun => false,
        _ => true,
    }
}

/// How deep the reader of documents follows arrays and objects into each
/// other.
pub open spec fn depth_limit() -> nat {
    512
}

/// No member of an array lies deeper than the deepest.
pub proof fn lemma_deepest(items: Seq<Tree>, i: int)
    requires
        0 <= i < items.len(),
    ensures
        items[i].depth() <= Tree::deepest(items),
    decreases items.len(),
{
    if i < items.len() - 1 {
        lemma_deepest(items.drop_last(), i);
    }
}

/// No value of an object lies deeper than the deepest.
pub proof fn lemma_deepest_value(entries: Seq<(Seq<char>, Tree)>, i: int)
    requires
        0 <= i < entries.len(),
    ensures
        entries[i].1.depth() <= Tree::deepest_value(entries),
    decreases entries.len(),
{
    if i < entries.len() - 1 {
        lemma_deepest_value(entries.drop_last(), i);
    }
}

/// What a document holds under a key or at a place is less deep than the
/// document, or as flat as can be.
pub proof fn lemma_part_depth(doc: Tree, key: Seq<char>, index: int)
    ensures
        doc.field(key).depth() <= doc.depth(),
        doc.element(index).depth() <= doc.depth(),
        Tree::Array(doc.members()).depth() <= doc.depth(),
{
    match doc {
        Tree::Object(entries) => {
            lemma_lookup_depth(entries, key, 0);
        },
        Tree::Array(items) => {
            if 0 <= index < items.len() {
                lemma_deepest(items, index);
            }
        },
        _ => {},
    }
}

proof fn lemma_lookup_depth(entries: Seq<(Seq<char>, Tree)>, key: Seq<char>, from: int)
    requires
        0 <= from,
    ensures
        Tree::lookup(entries, key, from).depth() <= Tree::deepest_value(entries),
    decreases entries.len() - from,
{
    if from < entries.len() {
        if entries[from].0 == key {
            lemma_deepest_value(entries, from);
        } else {
            lemma_lookup_depth(entries, key, from + 1);
        }
    }
}

/// What a place in a document holds, where a place that does not exist holds
/// `Null`.
pub open spec fn or_null(node: Option<&Json>) -> Tree {
    match node {
        Some(doc) => doc@,
        None => Tree::Null,
    }
}

impl Json {
    /// Looks up `key` in an object.
    pub fn get(&self, key: &str) -> (node: Option<&Json>)
        ensures
            or_null(node) == self@.field(key@),
    {
        match self {
            Json::Object(entries) => {
                proof {
                    lemma_entries_of(entries@);
                }
                let wanted = String::from_str(key);
                let mut i: usize = 0;
                while i < entries.len()
                    invariant
                        i <= entries.len(),
                        wanted@ == key@,
                        self@.entries().len() == entries.len(),
                        forall|j: int|
                            0 <= j < entries.len() ==> #[trigger] self@.entries()[j] == (
                                entries@[j].0@,
                                entries@[j].1@,
                            ),
                        Tree::lookup(self@.entries(), key@, i as int) == self@.field(key@),
                    decreases entries.len() - i,
                {
                    if entries[i].0 == wanted {
                        return Some(&entries[i].1);
                    }
                    i += 1;
                }
                None
            },
            _ => None,
        }
    }

    /// The number of members of an array.
    pub fn len(&self) -> (n: usize)
        ensures
            n == self@.members().len(),
    {
        match self {
            Json::Array(items) => {
                proof {
                    lemma_trees_of(items@);
                }
                items.len()
            },
            _ => 0,
        }
    }

    /// Looks up a member of an array.
    pub fn item(&self, index: usize) -> (node: Option<&Json>)
        ensures
            or_null(node) == self@.element(index as int),
    {
        match self {
            Json::Array(items) => {
                proof {
                    lemma_trees_of(items@);
                }
                if index < items.len() {
                    Some(&items[index])
                } else {
                    None
                }
            },
            _ => None,
        }
    }

    /// The number of entries of an object.
    pub fn entry_count(&self) -> (n: usize)
        ensures
            n == self@.entries().len(),
    {
        match self {
            Json::Object(entries) => {
                proof {
                    lemma_entries_of(entries@);
                }
                entries.len()
            },
            _ => 0,
        }
    }

    /// The key of an entry of an object; `None` where the object has no
    /// entry at `index`.
    pub fn key(&self, index: usize) -> (key: Option<String>)
        ensures
            match key {
                Some(key) => index < self@.entries().len() && key@ == self@.entries()[index as int].0,
                None => index >= self@.entries().len(),
            },
    {
        match self {
            Json::Object(entries) => {
                proof {
                    lemma_entries_of(entries@);
                }
                if index < entries.len() {
                    Some(entries[index].0.clone())
                } else {
                    None
                }
            },
            _ => None,
        }
    }

    /// A copy of the document.
    pub fn duplicate(&self) -> (copy: Json)
        ensures
            copy@ == self@,
        decreases self,
    {
        match self {
            Json::Null => Json::Null,
            Json::Boolean(b) => Json::Boolean(*b),
            Json::Number { positive, mantissa, exponent } => Json::Number {
                positive: *positive,
                mantissa: *mantissa,
                exponent: *exponent,
            },
            Json::Text(text) => Json::Text(text.clone()),
            Json::Array(items) => {
                let mut copies: Vec<Json> = Vec::new();
                let mut i: usize = 0;
                while i < items.len()
                    invariant
                        i <= items.len(),
                        copies@.len() == i,
                        *self == Json::Array(*items),
                        forall|j: int| 0 <= j < i ==> #[trigger] copies@[j]@ == items@[j]@,
                    decreases items.len() - i,
                {
                    proof {
                        vstd::std_specs::vec::axiom_vec_index_decreases(*items, i as int);
                        assert(self->Array_0 == *items);
                        assert(decreases_to!(*self => self->Array_0));
                        assert(decreases_to!(*items => items[i as int]));
                    }
                    let copy = items[i].duplicate();
                    copies.push(copy);
                    i += 1;
                }
                proof {
                    lemma_trees_of(items@);
                    lemma_trees_of(copies@);
                    assert(trees_of(copies@) =~= trees_of(items@));
                }
                Json::Array(copies)
            },
            Json::Object(entries) => {
                let mut copies: Vec<(String, Json)> = Vec::new();
                let mut i: usize = 0;
                while i < entries.len()
                    invariant
                        i <= entries.len(),
                        copies@.len() == i,
                        *self == Json::Object(*entries),
                        forall|j: int|
                            0 <= j < i ==> #[trigger] copies@[j].0@ == entries@[j].0@
                                && copies@[j].1@ == entries@[j].1@,
                    decreases entries.len() - i,
                {
                    let key = entries[i].0.clone();
                    proof {
                        vstd::std_specs::vec::axiom_vec_index_decreases(*entries, i as int);
                        assert(self->Object_0 == *entries);
                        assert(decreases_to!(*self => self->Object_0));
                        assert(decreases_to!(*entries => entries[i as int]));
                        assert(decreases_to!(entries[i as int] => entries[i as int].1));
                    }
                    let copy = entries[i].1.duplicate();
                    copies.push((key, copy));
                    i += 1;
                }
                proof {
                    lemma_entries_of(entries@);
                    lemma_entries_of(copies@);
                    assert(entries_of(copies@) =~= entries_of(entries@));
                }
                Json::Object(copies)
            },
        }
    }

    /// Tells whether arrays and objects that are not empty lie at most
    /// `limit` deep inside each other.
    pub fn shallow(&self, limit: usize) -> (yes: bool)
        ensures
            yes == (self@.depth() <= limit),
        decreases self,
    {
        match self {
            Json::Array(items) => {
                proof {
                    lemma_trees_of(items@);
                }
                if items.len() == 0 {
                    return true;
                }
                if limit == 0 {
                    return false;
                }
                let mut i: usize = 0;
                while i < items.len()
                    invariant
                        i <= items.len(),
                        limit > 0,
                        *self == Json::Array(*items),
                        trees_of(items@).len() == items.len(),
                        forall|j: int|
                            0 <= j < items.len() ==> #[trigger] trees_of(items@)[j] == items@[j]@,
                        Tree::deepest(trees_of(items@).take(i as int)) <= limit - 1,
                    decreases items.len() - i,
                {
                    proof {
                        vstd::std_specs::vec::axiom_vec_index_decreases(*items, i as int);
                        assert(self->Array_0 == *items);
                        assert(decreases_to!(*self => self->Array_0));
                        assert(decreases_to!(*items => items[i as int]));
                    }
                    if !items[i].shallow(limit - 1) {
                        proof {
                            lemma_deepest(trees_of(items@), i as int);
                        }
                        return false;
                    }
                    assert(trees_of(items@).take(i as int + 1).drop_last() =~= trees_of(
                        items@,
                    ).take(i as int));
                    i += 1;
                }
                assert(trees_of(items@).take(i as int) =~= trees_of(items@));
                true
            },
            Json::Object(entries) => {
                proof {
                    lemma_entries_of(entries@);
                }
                if entries.len() == 0 {
                    return true;
                }
                if limit == 0 {
                    return false;
                }
                let mut i: usize = 0;
                while i < entries.len()
                    invariant
                        i <= entries.len(),
                        limit > 0,
                        *self == Json::Object(*entries),
                        entries_of(entries@).len() == entries.len(),
                        forall|j: int|
                            0 <= j < entries.len() ==> #[trigger] entries_of(entries@)[j] == (
                                entries@[j].0@,
                                entries@[j].1@,
                            ),
                        Tree::deepest_value(entries_of(entries@).take(i as int)) <= limit - 1,
                    decreases entries.len() - i,
                {
                    proof {
                        vstd::std_specs::vec::axiom_vec_index_decreases(*entries, i as int);
                        assert(self->Object_0 == *entries);
                        assert(decreases_to!(*self => self->Object_0));
                        assert(decreases_to!(*entries => entries[i as int]));
                        assert(decreases_to!(entries[i as int] => entries[i as int].1));
                    }
                    if !entries[i].1.shallow(limit - 1) {
                        proof {
                            lemma_deepest_value(entries_of(entries@), i as int);
                        }
                        return false;
                    }
                    assert(entries_of(entries@).take(i as int + 1).drop_last() =~= entries_of(
                        entries@,
                    ).take(i as int));
                    i += 1;
                }
                assert(entries_of(entries@).take(i as int) =~= entries_of(entries@));
                true
            },
            _ => true,
        }
    }

    /// Tells whether the document can be written over several lines with an
    /// indentation of `spaces`.
    pub fn can_indent(&self, spaces: u16) -> (yes: bool)
        ensures
            yes == self@.fits(spaces),
    {
        let limit: usize = if spaces == 0 {
            65535
        } else {
            (65535 / spaces) as usize
        };
        proof {
            let depth = self@.depth() as int;
            let width = spaces as int;
            if width > 0 {
                assert(depth * width <= 65535int <==> depth <= 65535int / width) by (nonlinear_arith)
                    requires
                        width > 0,
                        depth >= 0,
                ;
                assert(depth * width <= 65535 ==> depth <= 65535) by (nonlinear_arith)
                    requires
                        width > 0,
                        depth >= 0,
                ;
            } else {
                assert(depth * width == 0) by (nonlinear_arith)
                    requires
                        width == 0,
                ;
            }
        }
        self.shallow(limit)
    }

    /// Reads a document from its text. A text with a fraction of more digits
    /// than the reader can count is refused for that, before it is read.
    /// Arrays and objects lie at most `depth_limit` deep inside each other in
    /// what is read.
    pub fn parse(text: &str) -> (r: Result<Json, Error>)
        ensures
            match r {
                Ok(doc) => countable(text.spec_bytes()) && parsed(text@) == Some(doc@)
                    && doc@.depth() <= depth_limit(),
                Err(e) => e matches Error::Json(refusal) && (refusal
                    is TooManyDigits <==> !countable(text.spec_bytes())) && (countable(
                    text.spec_bytes(),
                ) ==> parsed(text@) is None),
            },
    {
        if !is_countable(text) {
            return Err(Error::Json(Refusal::TooManyDigits));
        }
        match parse_text(text) {
            Ok(doc) => Ok(doc),
            Err(e) => Err(Error::Json(e)),
        }
    }

    /// Writes the document on one line.
    pub fn dump(&self) -> (out: String)
        ensures
            out@ == compact(self@),
    {
        compact_text(self)
    }

    /// Writes the document over several lines, each level indented by
    /// `spaces` more than the one around it.
    pub fn pretty(&self, spaces: u16) -> (out: String)
        requires
            self@.fits(spaces),
        ensures
            out@ == indented_form(self@, spaces),
    {
        pretty_text(self, spaces)
    }
}

/// Writes the document of a text anew, over several lines, each level
/// indented by `spaces` more than the one around it, and every number with
/// the digits that were read. A text that is no document is refused as
/// `Json::parse` refuses it.
pub fn reindent(text: &str, spaces: u16) -> (r: Result<String, Error>)
    requires
        depth_limit() * spaces <= u16::MAX,
    ensures
        match r {
            Ok(out) => countable(text.spec_bytes()) && parsed(text@) is Some && reindented(
                text@,
                spaces,
            ) == Some(out@),
            Err(e) => e matches Error::Json(refusal) && (refusal is TooManyDigits <==> !countable(
                text.spec_bytes(),
            )) && (countable(text.spec_bytes()) ==> parsed(text@) is None),
        },
{
    match Json::parse(text) {
        Ok(_) => match reindent_text(text, spaces) {
            Some(out) => Ok(out),
            // What was read a moment ago is read again.
            None => Ok(String::new()),
        },
        Err(e) => Err(e),
    }
}

/// Looks up `key` in what a place holds.
pub fn field<'a>(node: Option<&'a Json>, key: &str) -> (found: Option<&'a Json>)
    ensures
        or_null(found) == or_null(node).field(key@),
{
    match node {
        Some(doc) => doc.get(key),
        None => None,
    }
}

/// Looks up a member of the array that a place holds.
pub fn element<'a>(node: Option<&'a Json>, index: usize) -> (found: Option<&'a Json>)
    ensures
        or_null(found) == or_null(node).element(index as int),
{
    match node {
        Some(doc) => doc.item(index),
        None => None,
    }
}

/// The string that a place holds; the empty string where it holds none.
pub fn text_of(node: Option<&Json>) -> (text: String)
    ensures
        text@ == or_null(node).text(),
{
    match node {
        Some(Json::Text(text)) => text.clone(),
        _ => String::new(),
    }
}

/// The count that a place holds; zero where it holds none.
pub fn count_of(node: Option<&Json>) -> (n: u64)
    ensures
        n == or_null(node).count(),
{
    match node {
        Some(Json::Number { positive, mantissa, exponent }) => {
            if *positive && *exponent == 0 {
                *mantissa
            } else {
                0
            }
        },
        _ => 0,
    }
}

/// Whether a place holds the boolean `true`.
pub fn is_true(node: Option<&Json>) -> (yes: bool)
    ensures
        yes == or_null(node).is_true(),
{
    match node {
        Some(Json::Boolean(b)) => *b,
        _ => false,
    }
}

/// The strings among the members of an array, each at its member's place,
/// with the empty string for a member that is none.
pub open spec fn member_texts(node: Tree) -> Seq<Seq<char>> {
    Seq::new(node.members().len(), |i: int| node.members()[i].text())
}

/// The keys of the entries of an object, in their order, without those equal
/// to `skipped`.
pub open spec fn keys_except(entries: Seq<(Seq<char>, Tree)>, skipped: Seq<char>) -> Seq<
    Seq<char>,
>
    decreases entries.len(),
{
    if entries.len() == 0 {
        Seq::empty()
    } else if entries.last().0 == skipped {
        keys_except(entries.drop_last(), skipped)
    } else {
        keys_except(entries.drop_last(), skipped).push(entries.last().0)
    }
}

/// The number of members of the array that a place holds.
pub fn length_of(node: Option<&Json>) -> (n: usize)
    ensures
        n == or_null(node).members().len(),
{
    match node {
        Some(doc) => doc.len(),
        None => 0,
    }
}

/// The members of the array that a place holds, each read as a string.
pub fn texts_of(node: Option<&Json>) -> (out: Vec<String>)
    ensures
        texts(out@) == member_texts(or_null(node)),
{
    let mut out: Vec<String> = Vec::new();
    let n: usize = length_of(node);
    let mut i: usize = 0;
    while i < n
        invariant
            i <= n,
            n == or_null(node).members().len(),
            out@.len() == i,
            forall|j: int| 0 <= j < i ==> #[trigger] out@[j]@ == or_null(node).members()[j].text(),
        decreases n - i,
    {
        let text = text_of(element(node, i));
        out.push(text);
        i += 1;
    }
    assert(texts(out@) =~= member_texts(or_null(node)));
    out
}

/// The keys of the object that a place holds, without those equal to
/// `skipped`.
pub fn keys_of(node: Option<&Json>, skipped: &str) -> (out: Vec<String>)
    ensures
        texts(out@) == keys_except(or_null(node).entries(), skipped@),
{
    let mut out: Vec<String> = Vec::new();
    match node {
        Some(doc) => {
            let unwanted = String::from_str(skipped);
            let n: usize = doc.entry_count();
            let mut i: usize = 0;
            while i < n
                invariant
                    i <= n,
                    n == doc@.entries().len(),
                    unwanted@ == skipped@,
                    texts(out@) == keys_except(
                        doc@.entries().take(i as int),
                        skipped@,
                    ),
                decreases n - i,
            {
                let ghost before = texts(out@);
                assert(doc@.entries().take(i as int + 1).drop_last() =~= doc@.entries().take(
                    i as int,
                ));
                assert(doc@.entries().take(i as int + 1).last() == doc@.entries()[i as int]);
                match doc.key(i) {
                    Some(key) => {
                        if key != unwanted {
                            out.push(key);
                            assert(texts(out@) =~= before.push(key@));
                        }
                    },
                    None => {},
                }
                i += 1;
            }
            assert(doc@.entries().take(n as int) =~= doc@.entries());
        },
        None => {
            assert(texts(out@) =~= Seq::<Seq<char>>::empty());
        },
    }
    out
}

/// The tree of values of the `json` crate, of which nothing is known here.
#[verifier::external_type_specification]
#[verifier::external_body]
pub struct ExJsonValue(json::JsonValue);

/// The document that the `json` crate reads from a text; `None` for a text
/// that it refuses.
pub uninterp spec fn parsed(text: Seq<char>) -> Option<Tree>;

/// The text that the `json` crate writes for a document on one line.
pub uninterp spec fn compact(doc: Tree) -> Seq<char>;

/// The text that the `json` crate writes for a document over several lines,
/// indenting by `spaces`.
pub uninterp spec fn indented_form(doc: Tree, spaces: u16) -> Seq<char>;

/// The text that the `json` crate writes over several lines, indenting by
/// `spaces`, for what it reads from a text; `None` for a text that it
/// refuses.
pub uninterp spec fn reindented(text: Seq<char>, spaces: u16) -> Option<Seq<char>>;

/// Turns a value of the `json` crate into a document, kind by kind: a number
/// by `Number::as_parts`, both kinds of string as a string, the members of an
/// array and the entries of an object in the order of `iter`.
#[verifier::external_body]
fn lift(value: &json::JsonValue) -> Json {
    match value {
        json::JsonValue::Null => Json::Null,
        json::JsonValue::Boolean(b) => Json::Boolean(*b),
        json::JsonValue::Number(n) => {
            let (positive, mantissa, exponent) = n.as_parts();
            Json::Number { positive, mantissa, exponent }
        },
        json::JsonValue::Short(s) => Json::Text(s.as_str().to_string()),
        json::JsonValue::String(s) => Json::Text(s.clone()),
        json::JsonValue::Array(items) => Json::Array(items.iter().map(lift).collect()),
        json::JsonValue::Object(o) => Json::Object(
            o.iter().map(|(k, v)| (k.to_string(), lift(v))).collect(),
        ),
    }
}

/// Turns a document into a value of the `json` crate, kind by kind: a number
/// by `Number::from_parts`, which drops the zeros at the end of a fraction;
/// an object by inserting its entries in turn, so that of two entries with
/// one key the first keeps its place and the second its value.
#[verifier::external_body]
fn lower(doc: &Json) -> json::JsonValue {
    match doc {
        Json::Null => json::JsonValue::Null,
        Json::Boolean(b) => json::JsonValue::Boolean(*b),
        Json::Number { positive, mantissa, exponent } => json::JsonValue::Number(
            json::number::Number::from_parts(*positive, *mantissa, *exponent),
        ),
        Json::Text(s) => json::JsonValue::String(s.clone()),
        Json::Array(items) => json::JsonValue::Array(items.iter().map(lower).collect()),
        Json::Object(entries) => json::JsonValue::Object(
            entries.iter().map(|(k, v)| (k, lower(v))).collect(),
        ),
    }
}

/// Calls `json::parse`. Whether the text is accepted, and the document that
/// is read from it, depend on the text alone. The parser counts the digits
/// that it takes from a fraction into the mantissa down from zero in sixteen
/// bits, so no fraction may give it more than 32768; `countable` follows the
/// parser through strings and numbers to tell. It keeps a stack of the arrays
/// and objects that it is inside of and refuses to let it grow beyond its
/// limit of 512, so nothing that it reads is deeper. The crate's error comes
/// back variant by variant.
#[verifier::external_body]
fn parse_text(text: &str) -> (r: Result<Json, Refusal>)
    requires
        countable(text.spec_bytes()),
    ensures
        match r {
            Ok(doc) => parsed(text@) == Some(doc@) && doc@.depth() <= depth_limit(),
            Err(refusal) => parsed(text@) is None && !(refusal is TooManyDigits),
        },
{
    match json::parse(text) {
        Ok(value) => Ok(lift(&value)),
        Err(json::Error::UnexpectedCharacter { ch, line, column }) => Err(
            Refusal::UnexpectedCharacter { ch, line, column },
        ),
        Err(json::Error::UnexpectedEndOfJson) => Err(Refusal::UnexpectedEndOfJson),
        Err(json::Error::ExceededDepthLimit) => Err(Refusal::ExceededDepthLimit),
        Err(json::Error::FailedUtf8Parsing) => Err(Refusal::FailedUtf8Parsing),
        Err(json::Error::WrongType(kind)) => Err(Refusal::WrongType(kind)),
    }
}

/// Calls `JsonValue::dump`. The text depends on the document alone.
#[verifier::external_body]
fn compact_text(doc: &Json) -> (out: String)
    ensures
        out@ == compact(doc@),
{
    lower(doc).dump()
}

/// Calls `JsonValue::pretty`. The text depends on the document and the
/// indentation alone. The generator counts in sixteen bits both how deep it
/// is and how many spaces that makes, so the deepest place must leave both
/// counts in range.
#[verifier::external_body]
fn pretty_text(doc: &Json, spaces: u16) -> (out: String)
    requires
        doc@.fits(spaces),
    ensures
        out@ == indented_form(doc@, spaces),
{
    lower(doc).pretty(spaces)
}

/// Calls `json::parse`, and `JsonValue::pretty` on what was read. What comes
/// back depends on the text and the indentation alone, and a text is refused
/// here exactly where `json::parse` refuses it. Of the parser the same holds
/// as above: it must be able to count its digits, and reads nothing deeper
/// than 512, so that the generator's sixteen bits hold the widest indentation
/// where they hold that of such a depth.
#[verifier::external_body]
fn reindent_text(text: &str, spaces: u16) -> (r: Option<String>)
    requires
        countable(text.spec_bytes()),
        depth_limit() * spaces <= u16::MAX,
    ensures
        match r {
            Some(out) => parsed(text@) is Some && reindented(text@, spaces) == Some(out@),
            None => parsed(text@) is None && reindented(text@, spaces) is None,
        },
{
    match json::parse(text) {
        Ok(value) => Some(value.pretty(spaces)),
        Err(_) => None,
    }
}

} // verus!
