//! CBOR items as trees, and how the plain values that messages are made of
//! are written as such trees.
//!
//! The messages of the protocols are described by their trees; which bytes
//! stand for a tree is said in `cbor_bytes`.

use vstd::prelude::*;

verus! {

/// A CBOR item.
#[derive(Debug)]
pub enum Cbor {
    /// An unsigned integer.
    Positive(u64),
    /// A negative integer: minus one, minus this number.
    Negative(u64),
    /// A byte string.
    Bytes(Vec<u8>),
    /// A text string.
    Text(String),
    /// An array, with its items in order.
    Array(Vec<Cbor>),
    /// A map, with its keys and values in order.
    Entries(Vec<(Cbor, Cbor)>),
    /// An item with a tag.
    Tag(u64, Box<Cbor>),
    /// A boolean.
    Bool(bool),
    /// The null value.
    Null,
    /// The undefined value.
    Undefined,
    /// A simple value.
    Byte(u8),
    /// A floating-point number of 16, 32 or 64 bits, as its bits.
    Float(u8, u64),
}

/// Whether `a` and `b` are the same item: the same kind, the same content,
/// and the same items within, in the same order.
pub open spec fn same_tree(a: Cbor, b: Cbor) -> bool
    decreases a,
{
    match a {
        Cbor::Positive(v) => b == Cbor::Positive(v),
        Cbor::Negative(v) => b == Cbor::Negative(v),
        Cbor::Bytes(data) => b matches Cbor::Bytes(other) && other@ == data@,
        Cbor::Text(text) => b matches Cbor::Text(other) && other@ == text@,
        Cbor::Array(items) => b matches Cbor::Array(others) && others@.len() == items@.len()
            && forall|i: int|
            0 <= i < items@.len() ==> same_tree(#[trigger] items@[i], others@[i]),
        Cbor::Entries(entries) => b matches Cbor::Entries(others) && others@.len()
            == entries@.len() && forall|i: int|
            0 <= i < entries@.len() ==> same_tree((#[trigger] entries@[i]).0, others@[i].0)
                && same_tree(entries@[i].1, others@[i].1),
        Cbor::Tag(tag, inner) => b matches Cbor::Tag(other_tag, other) && other_tag == tag
            && same_tree(*inner, *other),
        Cbor::Bool(v) => b == Cbor::Bool(v),
        Cbor::Null => b == Cbor::Null,
        Cbor::Undefined => b == Cbor::Undefined,
        Cbor::Byte(v) => b == Cbor::Byte(v),
        Cbor::Float(bits, v) => b == Cbor::Float(bits, v),
    }
}

/// If one item is the same as another, the other is the same as the one.
pub proof fn lemma_same_tree_symmetric(a: Cbor, b: Cbor)
    requires
        same_tree(a, b),
    ensures
        same_tree(b, a),
    decreases a,
{
    match a {
        Cbor::Array(items) => {
            let others = b->Array_0;
            assert forall|i: int| 0 <= i < others@.len() implies same_tree(
                #[trigger] others@[i],
                items@[i],
            ) by {
                vstd::std_specs::vec::axiom_vec_index_decreases(items, i);
                lemma_same_tree_symmetric(items@[i], others@[i]);
            }
        },
        Cbor::Entries(entries) => {
            let others = b->Entries_0;
            assert forall|i: int| 0 <= i < others@.len() implies same_tree(
                (#[trigger] others@[i]).0,
                entries@[i].0,
            ) && same_tree(others@[i].1, entries@[i].1) by {
                vstd::std_specs::vec::axiom_vec_index_decreases(entries, i);
                assert(same_tree(entries@[i].0, others@[i].0));
                lemma_same_tree_symmetric(entries@[i].0, others@[i].0);
                lemma_same_tree_symmetric(entries@[i].1, others@[i].1);
            }
        },
        Cbor::Tag(_, inner) => {
            lemma_same_tree_symmetric(*inner, *b->Tag_1);
        },
        _ => {},
    }
}

impl Cbor {
    /// A copy of this item.
    #[verifier::loop_isolation(false)]
    pub fn duplicate(&self) -> (copy: Cbor)
        ensures
            same_tree(*self, copy),
        decreases self,
    {
        match self {
            Cbor::Positive(v) => Cbor::Positive(*v),
            Cbor::Negative(v) => Cbor::Negative(*v),
            Cbor::Bytes(data) => Cbor::Bytes(data.clone()),
            Cbor::Text(text) => Cbor::Text(text.clone()),
            Cbor::Array(items) => {
                let mut others: Vec<Cbor> = Vec::new();
                let mut i: usize = 0;
                while i < items.len()
                    invariant
                        i <= items@.len(),
                        others@.len() == i,
                        *self == Cbor::Array(*items),
                        forall|j: int| 0 <= j < i ==> same_tree(#[trigger] items@[j], others@[j]),
                    decreases items@.len() - i,
                {
                    proof {
                        vstd::std_specs::vec::axiom_vec_index_decreases(*items, i as int);
                    }
                    others.push(items[i].duplicate());
                    i += 1;
                }
                Cbor::Array(others)
            },
            Cbor::Entries(entries) => {
                let mut others: Vec<(Cbor, Cbor)> = Vec::new();
                let mut i: usize = 0;
                while i < entries.len()
                    invariant
                        i <= entries@.len(),
                        others@.len() == i,
                        *self == Cbor::Entries(*entries),
                        forall|j: int|
                            0 <= j < i ==> same_tree((#[trigger] entries@[j]).0, others@[j].0)
                                && same_tree(entries@[j].1, others@[j].1),
                    decreases entries@.len() - i,
                {
                    proof {
                        vstd::std_specs::vec::axiom_vec_index_decreases(*entries, i as int);
                    }
                    let key = entries[i].0.duplicate();
                    let value = entries[i].1.duplicate();
                    others.push((key, value));
                    i += 1;
                }
                Cbor::Entries(others)
            },
            Cbor::Tag(tag, inner) => Cbor::Tag(*tag, Box::new(inner.duplicate())),
            Cbor::Bool(v) => Cbor::Bool(*v),
            Cbor::Null => Cbor::Null,
            Cbor::Undefined => Cbor::Undefined,
            Cbor::Byte(v) => Cbor::Byte(*v),
            Cbor::Float(bits, v) => Cbor::Float(*bits, *v),
        }
    }
}

impl Clone for Cbor {
    fn clone(&self) -> (copy: Cbor)
        ensures
            same_tree(*self, copy),
    {
        self.duplicate()
    }
}

/// The error of reading a value from a tree that is not of its form.
#[derive(Clone, Copy, Debug, PartialEq, Eq, Structural)]
pub struct Undecodable;

/// Whether `tree` is the unsigned integer `v`.
pub open spec fn is_u64(v: u64, tree: Cbor) -> bool {
    tree == Cbor::Positive(v)
}

/// Whether `tree` is the boolean `b`.
pub open spec fn is_bool(b: bool, tree: Cbor) -> bool {
    tree == Cbor::Bool(b)
}

/// Whether `tree` is the byte string `data`.
pub open spec fn is_bytes(data: Seq<u8>, tree: Cbor) -> bool {
    tree matches Cbor::Bytes(held) && held@ == data
}

/// Whether `tree` is the text `text`.
pub open spec fn is_text(text: Seq<char>, tree: Cbor) -> bool {
    tree matches Cbor::Text(held) && held@ == text
}

/// Whether `tree` is the byte string `data` as an item within an item: a
/// byte string with tag 24.
pub open spec fn is_encoded_cbor(data: Seq<u8>, tree: Cbor) -> bool {
    tree matches Cbor::Tag(tag, inner) && tag == 24 && is_bytes(data, *inner)
}

/// The unsigned integer `v` as a tree.
pub fn from_u64(v: u64) -> (tree: Cbor)
    ensures
        is_u64(v, tree),
{
    Cbor::Positive(v)
}

/// The unsigned integer that `tree` is, if it is one.
pub fn to_u64(tree: &Cbor) -> (r: Result<u64, Undecodable>)
    ensures
        r matches Ok(v) ==> is_u64(v, *tree),
        r is Err <==> forall|v: u64| !is_u64(v, *tree),
{
    match tree {
        Cbor::Positive(v) => {
            assert(is_u64(*v, *tree));
            Ok(*v)
        },
        _ => Err(Undecodable),
    }
}

/// The unsigned integer that `tree` is, if it is one and no larger than `max`.
pub fn to_bounded(tree: &Cbor, max: u64) -> (r: Result<u64, Undecodable>)
    ensures
        r matches Ok(v) ==> is_u64(v, *tree) && v <= max,
        r is Err <==> forall|v: u64| v <= max ==> !is_u64(v, *tree),
{
    match tree {
        Cbor::Positive(v) => {
            if *v <= max {
                assert(is_u64(*v, *tree));
                Ok(*v)
            } else {
                Err(Undecodable)
            }
        },
        _ => Err(Undecodable),
    }
}

/// The boolean `b` as a tree.
pub fn from_bool(b: bool) -> (tree: Cbor)
    ensures
        is_bool(b, tree),
{
    Cbor::Bool(b)
}

/// The boolean that `tree` is, if it is one.
pub fn to_bool(tree: &Cbor) -> (r: Result<bool, Undecodable>)
    ensures
        r matches Ok(b) ==> is_bool(b, *tree),
        r is Err <==> forall|b: bool| !is_bool(b, *tree),
{
    match tree {
        Cbor::Bool(b) => {
            assert(is_bool(*b, *tree));
            Ok(*b)
        },
        _ => Err(Undecodable),
    }
}

/// The bytes `data` as a tree.
pub fn from_bytes(data: &Vec<u8>) -> (tree: Cbor)
    ensures
        is_bytes(data@, tree),
{
    Cbor::Bytes(data.clone())
}

/// The bytes that `tree` is, if it is a byte string.
pub fn to_bytes(tree: &Cbor) -> (r: Result<Vec<u8>, Undecodable>)
    ensures
        r matches Ok(data) ==> is_bytes(data@, *tree),
        r is Err <==> forall|data: Seq<u8>| !is_bytes(data, *tree),
{
    match tree {
        Cbor::Bytes(held) => {
            let data = held.clone();
            assert(is_bytes(data@, *tree));
            Ok(data)
        },
        _ => Err(Undecodable),
    }
}

/// The text `text` as a tree.
pub fn from_text(text: &String) -> (tree: Cbor)
    ensures
        is_text(text@, tree),
{
    Cbor::Text(text.clone())
}

/// The text that `tree` is, if it is a text string.
pub fn to_text(tree: &Cbor) -> (r: Result<String, Undecodable>)
    ensures
        r matches Ok(text) ==> is_text(text@, *tree),
        r is Err <==> forall|text: Seq<char>| !is_text(text, *tree),
{
    match tree {
        Cbor::Text(held) => {
            let text = held.clone();
            assert(is_text(text@, *tree));
            Ok(text)
        },
        _ => Err(Undecodable),
    }
}

/// The bytes `data` as an item within an item.
pub fn from_encoded_cbor(data: &Vec<u8>) -> (tree: Cbor)
    ensures
        is_encoded_cbor(data@, tree),
{
    Cbor::Tag(24, Box::new(Cbor::Bytes(data.clone())))
}

/// The bytes of the item within `tree`, if `tree` is an item within an item.
pub fn to_encoded_cbor(tree: &Cbor) -> (r: Result<Vec<u8>, Undecodable>)
    ensures
        r matches Ok(data) ==> is_encoded_cbor(data@, *tree),
        r is Err <==> forall|data: Seq<u8>| !is_encoded_cbor(data, *tree),
{
    match tree {
        Cbor::Tag(tag, inner) => {
            if *tag != 24 {
                return Err(Undecodable);
            }
            match to_bytes(inner) {
                Ok(data) => {
                    assert(is_encoded_cbor(data@, *tree));
                    Ok(data)
                },
                Err(e) => Err(e),
            }
        },
        _ => Err(Undecodable),
    }
}

/// The items of `tree`, if it is an array.
pub fn items_of(tree: &Cbor) -> (r: Result<&Vec<Cbor>, Undecodable>)
    ensures
        r matches Ok(items) ==> *tree == Cbor::Array(*items),
        r is Err <==> !(*tree is Array),
{
    match tree {
        Cbor::Array(items) => Ok(items),
        _ => Err(Undecodable),
    }
}

/// The entries of `tree`, if it is a map.
pub fn entries_of(tree: &Cbor) -> (r: Result<&Vec<(Cbor, Cbor)>, Undecodable>)
    ensures
        r matches Ok(entries) ==> *tree == Cbor::Entries(*entries),
        r is Err <==> !(*tree is Entries),
{
    match tree {
        Cbor::Entries(entries) => Ok(entries),
        _ => Err(Undecodable),
    }
}

/// A value that has a form as a CBOR tree.
///
/// A value has one tree. Reading the tree of a value gives the value back,
/// up to the place its vectors are kept in; a tree that is no value's is
/// refused.
pub trait CborCodec: Sized {
    /// Whether `tree` is the tree of this value.
    spec fn encodes(self, tree: Cbor) -> bool;

    /// The tree of this value.
    fn to_cbor(&self) -> (tree: Cbor)
        ensures
            self.encodes(tree),
    ;

    /// The value that `tree` is the tree of, if there is one.
    fn from_cbor(tree: &Cbor) -> (r: Result<Self, Undecodable>)
        ensures
            r matches Ok(value) ==> value.encodes(*tree),
            r is Err <==> forall|value: Self| !value.encodes(*tree),
    ;
}

impl CborCodec for u64 {
    open spec fn encodes(self, tree: Cbor) -> bool {
        is_u64(self, tree)
    }

    fn to_cbor(&self) -> (tree: Cbor) {
        from_u64(*self)
    }

    fn from_cbor(tree: &Cbor) -> (r: Result<u64, Undecodable>) {
        match to_u64(tree) {
            Ok(v) => Ok(v),
            Err(e) => {
                assert forall|value: u64| !value.encodes(*tree) by {
                    assert(!is_u64(value, *tree));
                }
                Err(e)
            },
        }
    }
}

impl CborCodec for u32 {
    open spec fn encodes(self, tree: Cbor) -> bool {
        is_u64(self as u64, tree)
    }

    fn to_cbor(&self) -> (tree: Cbor) {
        from_u64(*self as u64)
    }

    fn from_cbor(tree: &Cbor) -> (r: Result<u32, Undecodable>) {
        match to_bounded(tree, 0xffff_ffff) {
            Ok(v) => Ok(v as u32),
            Err(e) => {
                assert forall|value: u32| !value.encodes(*tree) by {
                    assert(!is_u64(value as u64, *tree));
                }
                Err(e)
            },
        }
    }
}

impl CborCodec for u16 {
    open spec fn encodes(self, tree: Cbor) -> bool {
        is_u64(self as u64, tree)
    }

    fn to_cbor(&self) -> (tree: Cbor) {
        from_u64(*self as u64)
    }

    fn from_cbor(tree: &Cbor) -> (r: Result<u16, Undecodable>) {
        match to_bounded(tree, 0xffff) {
            Ok(v) => Ok(v as u16),
            Err(e) => {
                assert forall|value: u16| !value.encodes(*tree) by {
                    assert(!is_u64(value as u64, *tree));
                }
                Err(e)
            },
        }
    }
}

impl CborCodec for u8 {
    open spec fn encodes(self, tree: Cbor) -> bool {
        is_u64(self as u64, tree)
    }

    fn to_cbor(&self) -> (tree: Cbor) {
        from_u64(*self as u64)
    }

    fn from_cbor(tree: &Cbor) -> (r: Result<u8, Undecodable>) {
        match to_bounded(tree, 0xff) {
            Ok(v) => Ok(v as u8),
            Err(e) => {
                assert forall|value: u8| !value.encodes(*tree) by {
                    assert(!is_u64(value as u64, *tree));
                }
                Err(e)
            },
        }
    }
}

impl CborCodec for bool {
    open spec fn encodes(self, tree: Cbor) -> bool {
        is_bool(self, tree)
    }

    fn to_cbor(&self) -> (tree: Cbor) {
        from_bool(*self)
    }

    fn from_cbor(tree: &Cbor) -> (r: Result<bool, Undecodable>) {
        match to_bool(tree) {
            Ok(b) => Ok(b),
            Err(e) => {
                assert forall|value: bool| !value.encodes(*tree) by {
                    assert(!is_bool(value, *tree));
                }
                Err(e)
            },
        }
    }
}

impl CborCodec for String {
    open spec fn encodes(self, tree: Cbor) -> bool {
        is_text(self@, tree)
    }

    fn to_cbor(&self) -> (tree: Cbor) {
        from_text(self)
    }

    fn from_cbor(tree: &Cbor) -> (r: Result<String, Undecodable>) {
        match to_text(tree) {
            Ok(text) => Ok(text),
            Err(e) => {
                assert forall|value: String| !value.encodes(*tree) by {
                    assert(!is_text(value@, *tree));
                }
                Err(e)
            },
        }
    }
}

/// Whether `items` are the trees of `values`, one for one.
pub open spec fn encodes_all<T: CborCodec>(values: Seq<T>, items: Seq<Cbor>) -> bool {
    &&& values.len() == items.len()
    &&& forall|i: int| 0 <= i < values.len() ==> (#[trigger] values[i]).encodes(items[i])
}

/// Whether `tree` is the array of the trees of `values`.
pub open spec fn is_array_of<T: CborCodec>(values: Seq<T>, tree: Cbor) -> bool {
    tree matches Cbor::Array(items) && encodes_all(values, items@)
}

/// The array of the trees of `values`.
pub fn array_from<T: CborCodec>(values: &Vec<T>) -> (tree: Cbor)
    ensures
        is_array_of(values@, tree),
{
    let mut items: Vec<Cbor> = Vec::new();
    let mut i: usize = 0;
    while i < values.len()
        invariant
            i <= values@.len(),
            items@.len() == i,
            forall|j: int| 0 <= j < i ==> (#[trigger] values@[j]).encodes(items@[j]),
        decreases values@.len() - i,
    {
        items.push(values[i].to_cbor());
        i += 1;
    }
    Cbor::Array(items)
}

/// The values whose trees the items of the array `tree` are, if `tree` is an
/// array of such trees.
pub fn array_to<T: CborCodec>(tree: &Cbor) -> (r: Result<Vec<T>, Undecodable>)
    ensures
        r matches Ok(values) ==> is_array_of(values@, *tree),
        r is Err <==> forall|values: Seq<T>| !is_array_of(values, *tree),
{
    match tree {
        Cbor::Array(items) => {
            let mut values: Vec<T> = Vec::new();
            let mut i: usize = 0;
            while i < items.len()
                invariant
                    i <= items@.len(),
                    values@.len() == i,
                    *tree == Cbor::Array(*items),
                    forall|j: int| 0 <= j < i ==> (#[trigger] values@[j]).encodes(items@[j]),
                decreases items@.len() - i,
            {
                match T::from_cbor(&items[i]) {
                    Ok(value) => {
                        values.push(value);
                    },
                    Err(e) => {
                        assert forall|other: Seq<T>| !is_array_of(other, *tree) by {
                            if is_array_of(other, *tree) {
                                assert(other[i as int].encodes(items@[i as int]));
                            }
                        }
                        return Err(e);
                    },
                }
                i += 1;
            }
            assert(is_array_of(values@, *tree));
            Ok(values)
        },
        _ => Err(Undecodable),
    }
}

} // verus!
