//! Maps and related utilities for variable substitution.
use std::borrow::Cow;
use std::collections::{BTreeMap, HashMap};
use vstd::prelude::*;
use vstd::string::StringSliceAdditionalSpecFns;
use vstd::utf8::{encode_utf8, encode_utf8_decode_utf8};

verus! {

/// A value that can be read as a byte string.
pub trait AsBytes {
    /// The bytes of the value.
    spec fn bytes(&self) -> Seq<u8>;

    /// Read the value as a byte slice.
    fn as_byte_slice(&self) -> (slice: &[u8])
        ensures
            slice@ == self.bytes(),
    ;
}

/// A value that can be read as text.
///
/// Its bytes are the UTF-8 encoding of its text.
pub trait AsText: AsBytes {
    /// The characters of the value.
    spec fn text(&self) -> Seq<char>;

    /// Read the value as a string slice.
    fn as_text(&self) -> (text: &str)
        ensures
            text@ == self.text(),
    ;

    /// The bytes of a text are its encoding.
    proof fn lemma_bytes_encode_text(&self)
        ensures
            self.bytes() == encode_utf8(self.text()),
    ;
}

impl AsBytes for str {
    open spec fn bytes(&self) -> Seq<u8> {
        encode_utf8(self@)
    }

    fn as_byte_slice(&self) -> (slice: &[u8]) {
        self.as_bytes()
    }
}

impl AsText for str {
    open spec fn text(&self) -> Seq<char> {
        self@
    }

    fn as_text(&self) -> (text: &str) {
        self
    }

    proof fn lemma_bytes_encode_text(&self) {
    }
}

impl AsBytes for String {
    open spec fn bytes(&self) -> Seq<u8> {
        encode_utf8(self@)
    }

    fn as_byte_slice(&self) -> (slice: &[u8]) {
        self.as_str().as_bytes()
    }
}

impl AsText for String {
    open spec fn text(&self) -> Seq<char> {
        self@
    }

    fn as_text(&self) -> (text: &str) {
        self.as_str()
    }

    proof fn lemma_bytes_encode_text(&self) {
    }
}

impl AsBytes for [u8] {
    open spec fn bytes(&self) -> Seq<u8> {
        self@
    }

    fn as_byte_slice(&self) -> (slice: &[u8]) {
        self
    }
}

impl AsBytes for Vec<u8> {
    open spec fn bytes(&self) -> Seq<u8> {
        self@
    }

    fn as_byte_slice(&self) -> (slice: &[u8]) {
        self.as_slice()
    }
}

impl<T: AsBytes + ?Sized> AsBytes for &T {
    open spec fn bytes(&self) -> Seq<u8> {
        (**self).bytes()
    }

    fn as_byte_slice(&self) -> (slice: &[u8]) {
        (**self).as_byte_slice()
    }
}

impl<T: AsText + ?Sized> AsText for &T {
    open spec fn text(&self) -> Seq<char> {
        (**self).text()
    }

    fn as_text(&self) -> (text: &str) {
        (**self).as_text()
    }

    proof fn lemma_bytes_encode_text(&self) {
        (**self).lemma_bytes_encode_text();
    }
}

impl<'a> AsBytes for Cow<'a, str> {
    open spec fn bytes(&self) -> Seq<u8> {
        encode_utf8(self@)
    }

    fn as_byte_slice(&self) -> (slice: &[u8]) {
        match self {
            Cow::Borrowed(text) => text.as_bytes(),
            Cow::Owned(text) => text.as_str().as_bytes(),
        }
    }
}

impl<'a> AsText for Cow<'a, str> {
    open spec fn text(&self) -> Seq<char> {
        self@
    }

    fn as_text(&self) -> (text: &str) {
        match self {
            Cow::Borrowed(text) => text,
            Cow::Owned(text) => text.as_str(),
        }
    }

    proof fn lemma_bytes_encode_text(&self) {
    }
}

impl<'a> AsBytes for Cow<'a, [u8]> {
    open spec fn bytes(&self) -> Seq<u8> {
        self@
    }

    fn as_byte_slice(&self) -> (slice: &[u8]) {
        match self {
            Cow::Borrowed(bytes) => bytes,
            Cow::Owned(bytes) => bytes.as_slice(),
        }
    }
}

impl<T: AsBytes + ?Sized> AsBytes for Box<T> {
    open spec fn bytes(&self) -> Seq<u8> {
        (**self).bytes()
    }

    fn as_byte_slice(&self) -> (slice: &[u8]) {
        (**self).as_byte_slice()
    }
}

impl<T: AsText + ?Sized> AsText for Box<T> {
    open spec fn text(&self) -> Seq<char> {
        (**self).text()
    }

    fn as_text(&self) -> (text: &str) {
        (**self).as_text()
    }

    proof fn lemma_bytes_encode_text(&self) {
        (**self).lemma_bytes_encode_text();
    }
}

/// Tell whether two string slices hold the same text.
pub fn same_text(left: &str, right: &str) -> (same: bool)
    ensures
        same == (left@ == right@),
{
    let a = left.as_bytes();
    let b = right.as_bytes();
    proof {
        encode_utf8_decode_utf8(left@);
        encode_utf8_decode_utf8(right@);
    }
    if a.len() != b.len() {
        return false;
    }
    let mut i: usize = 0;
    while i < a.len()
        invariant
            i <= a@.len(),
            a@.len() == b@.len(),
            a@ == encode_utf8(left@),
            b@ == encode_utf8(right@),
            forall|j: int| 0 <= j < i ==> a@[j] == b@[j],
        decreases a@.len() - i,
    {
        if a[i] != b[i] {
            return false;
        }
        i += 1;
    }
    assert(a@ =~= b@);
    true
}

/// Trait for types that can be used as a variable map.
///
/// A variable map is a partial function from names to values: what it gives for a name
/// depends on the map and the name alone.
pub trait VariableMap<'a> {
    /// The type returned by the [`get()`][Self::get] function.
    type Value;

    /// The value that the map holds for a name, if it holds one.
    spec fn lookup(&self, key: Seq<char>) -> Option<Self::Value>;

    /// Get a value from the map.
    fn get(&'a self, key: &str) -> (value: Option<Self::Value>)
        ensures
            value == self.lookup(key@),
    ;
}

/// What a variable map gives for each name, as bytes.
pub open spec fn byte_lookup<'a, M: VariableMap<'a> + ?Sized>(variables: &M) -> spec_fn(Seq<char>) -> Option<
    Seq<u8>,
> where M::Value: AsBytes {
    |key: Seq<char>|
        match variables.lookup(key) {
            Some(value) => Some(value.bytes()),
            None => None,
        }
}

/// The value of the first pair whose key is the given name.
pub open spec fn first_match<'a, K: AsText, V>(pairs: Seq<(K, V)>, key: Seq<char>) -> Option<&'a V>
    decreases pairs.len(),
{
    if pairs.len() == 0 {
        None
    } else if pairs[0].0.text() == key {
        Some(&pairs[0].1)
    } else {
        first_match(pairs.drop_first(), key)
    }
}

/// A pair that stands behind pairs with other keys is the first match.
pub proof fn lemma_first_match<K: AsText, V>(pairs: Seq<(K, V)>, key: Seq<char>, index: int)
    requires
        0 <= index <= pairs.len(),
        forall|i: int| 0 <= i < index ==> (#[trigger] pairs[i]).0.text() != key,
        index < pairs.len() ==> pairs[index].0.text() == key,
    ensures
        first_match(pairs, key) == if index < pairs.len() {
            Some(&pairs[index].1)
        } else {
            None
        },
    decreases index,
{
    if index > 0 {
        let rest = pairs.drop_first();
        assert forall|i: int| 0 <= i < index - 1 implies (#[trigger] rest[i]).0.text() != key by {
            assert(rest[i] == pairs[i + 1]);
        }
        lemma_first_match(rest, key, index - 1);
    }
}

/// Search a slice of pairs for the first one whose key is the given name.
pub fn get_from_pairs<'a, K: AsText, V>(pairs: &'a [(K, V)], key: &str) -> (value: Option<&'a V>)
    ensures
        value == first_match(pairs@, key@),
{
    let mut i: usize = 0;
    while i < pairs.len()
        invariant
            i <= pairs@.len(),
            forall|j: int| 0 <= j < i ==> (#[trigger] pairs@[j]).0.text() != key@,
        decreases pairs@.len() - i,
    {
        if same_text(pairs[i].0.as_text(), key) {
            proof {
                lemma_first_match(pairs@, key@, i as int);
            }
            return Some(&pairs[i].1);
        }
        i += 1;
    }
    proof {
        lemma_first_match(pairs@, key@, i as int);
    }
    None
}

/// A slice of pairs is a variable map: a name maps to the value of the first pair with
/// that name as its key.
impl<'a, K: AsText, V: 'a> VariableMap<'a> for [(K, V)] {
    type Value = &'a V;

    open spec fn lookup(&self, key: Seq<char>) -> Option<Self::Value> {
        first_match(self@, key)
    }

    fn get(&'a self, key: &str) -> (value: Option<Self::Value>) {
        get_from_pairs(self, key)
    }
}

/// An array of pairs is a variable map, as a slice of pairs is.
impl<'a, K: AsText, V: 'a, const N: usize> VariableMap<'a> for [(K, V); N] {
    type Value = &'a V;

    open spec fn lookup(&self, key: Seq<char>) -> Option<Self::Value> {
        first_match(self@, key)
    }

    fn get(&'a self, key: &str) -> (value: Option<Self::Value>) {
        get_from_pairs(self.as_slice(), key)
    }
}

/// A vector of pairs is a variable map, as a slice of pairs is.
impl<'a, K: AsText, V: 'a> VariableMap<'a> for Vec<(K, V)> {
    type Value = &'a V;

    open spec fn lookup(&self, key: Seq<char>) -> Option<Self::Value> {
        first_match(self@, key)
    }

    fn get(&'a self, key: &str) -> (value: Option<Self::Value>) {
        get_from_pairs(self.as_slice(), key)
    }
}

impl<'a, T: ?Sized + VariableMap<'a>> VariableMap<'a> for &'_ T {
    type Value = <T as VariableMap<'a>>::Value;

    open spec fn lookup(&self, key: Seq<char>) -> Option<Self::Value> {
        (**self).lookup(key)
    }

    fn get(&'a self, key: &str) -> (value: Option<Self::Value>) {
        T::get(self, key)
    }
}

/// A "map" that never returns any values.
#[derive(Debug)]
pub struct NoSubstitution;

/// Value returned by the [`NoSubstitution`] map: there is none, for no value of this
/// type can be made.
#[derive(Debug)]
pub struct NeverValue {
    nothing: (),
}

impl AsBytes for NeverValue {
    open spec fn bytes(&self) -> Seq<u8> {
        Seq::empty()
    }

    fn as_byte_slice(&self) -> (slice: &[u8]) {
        let empty: &[u8] = &[];
        empty
    }
}

impl AsText for NeverValue {
    open spec fn text(&self) -> Seq<char> {
        Seq::empty()
    }

    fn as_text(&self) -> (text: &str) {
        proof {
            reveal_strlit("");
        }
        ""
    }

    proof fn lemma_bytes_encode_text(&self) {
    }
}

impl<'a> VariableMap<'a> for NoSubstitution {
    type Value = NeverValue;

    open spec fn lookup(&self, key: Seq<char>) -> Option<Self::Value> {
        None
    }

    fn get(&'a self, key: &str) -> (value: Option<Self::Value>) {
        None
    }
}

impl<'a, T: ?Sized + VariableMap<'a>> VariableMap<'a> for &'_ mut T {
    type Value = <T as VariableMap<'a>>::Value;

    open spec fn lookup(&self, key: Seq<char>) -> Option<Self::Value> {
        (**self).lookup(key)
    }

    fn get(&'a self, key: &str) -> (value: Option<Self::Value>) {
        T::get(self, key)
    }
}

impl<'a, T: ?Sized + VariableMap<'a>> VariableMap<'a> for Box<T> {
    type Value = <T as VariableMap<'a>>::Value;

    open spec fn lookup(&self, key: Seq<char>) -> Option<Self::Value> {
        (**self).lookup(key)
    }

    fn get(&'a self, key: &str) -> (value: Option<Self::Value>) {
        T::get(self, key)
    }
}

impl<'a, T: ?Sized + VariableMap<'a>> VariableMap<'a> for std::rc::Rc<T> {
    type Value = <T as VariableMap<'a>>::Value;

    open spec fn lookup(&self, key: Seq<char>) -> Option<Self::Value> {
        (**self).lookup(key)
    }

    fn get(&'a self, key: &str) -> (value: Option<Self::Value>) {
        T::get(self, key)
    }
}

impl<'a, T: ?Sized + VariableMap<'a>> VariableMap<'a> for std::sync::Arc<T> {
    type Value = <T as VariableMap<'a>>::Value;

    open spec fn lookup(&self, key: Seq<char>) -> Option<Self::Value> {
        (**self).lookup(key)
    }

    fn get(&'a self, key: &str) -> (value: Option<Self::Value>) {
        T::get(self, key)
    }
}

/// The value of the entry whose key has the given text, if there is such an entry.
pub open spec fn entry_for<'a, K: View<V = Seq<char>>, V>(entries: Map<K, V>, key: Seq<char>) -> Option<
    &'a V,
> {
    if exists|k: K| k@ == key && entries.contains_key(k) {
        Some(&entries[choose|k: K| k@ == key && entries.contains_key(k)])
    } else {
        None
    }
}

/// Calls `BTreeMap::get` of std on a map with `String` keys, which returns a reference
/// to the value that belongs to a key.
///
/// Trusted: the result is the value of the entry whose key has the text of `key`, and
/// `None` if the map has no such entry.
#[verifier::external_body]
fn get_by_string<'a, V>(map: &'a BTreeMap<String, V>, key: &str) -> (value: Option<&'a V>)
    ensures
        value == entry_for(map@, key@),
{
    map.get(key)
}

/// Calls `BTreeMap::get` of std on a map with `&str` keys, which returns a reference
/// to the value that belongs to a key.
///
/// Trusted: the result is the value of the entry whose key has the text of `key`, and
/// `None` if the map has no such entry.
#[verifier::external_body]
fn get_by_str<'a, 'k, V>(map: &'a BTreeMap<&'k str, V>, key: &str) -> (value: Option<&'a V>)
    ensures
        value == entry_for(map@, key@),
{
    map.get(key)
}

/// Calls `HashMap::get` of std on a map with `String` keys and the hasher of std,
/// which returns a reference to the value that belongs to a key.
///
/// Trusted: the result is the value of the entry whose key has the text of `key`, and
/// `None` if the map has no such entry.
#[verifier::external_body]
fn get_hashed_by_string<'a, V>(map: &'a HashMap<String, V>, key: &str) -> (value: Option<&'a V>)
    ensures
        value == entry_for(map@, key@),
{
    map.get(key)
}

/// Calls `HashMap::get` of std on a map with `&str` keys and the hasher of std, which
/// returns a reference to the value that belongs to a key.
///
/// Trusted: the result is the value of the entry whose key has the text of `key`, and
/// `None` if the map has no such entry.
#[verifier::external_body]
fn get_hashed_by_str<'a, 'k, V>(map: &'a HashMap<&'k str, V>, key: &str) -> (value: Option<&'a V>)
    ensures
        value == entry_for(map@, key@),
{
    map.get(key)
}

impl<'a, V: 'a> VariableMap<'a> for BTreeMap<&str, V> {
    type Value = &'a V;

    open spec fn lookup(&self, key: Seq<char>) -> Option<Self::Value> {
        entry_for(self@, key)
    }

    fn get(&'a self, key: &str) -> (value: Option<Self::Value>) {
        get_by_str(self, key)
    }
}

impl<'a, V: 'a> VariableMap<'a> for BTreeMap<String, V> {
    type Value = &'a V;

    open spec fn lookup(&self, key: Seq<char>) -> Option<Self::Value> {
        entry_for(self@, key)
    }

    fn get(&'a self, key: &str) -> (value: Option<Self::Value>) {
        get_by_string(self, key)
    }
}

/// A hash map with the hasher of std is a variable map.
impl<'a, V: 'a> VariableMap<'a> for HashMap<&str, V> {
    type Value = &'a V;

    open spec fn lookup(&self, key: Seq<char>) -> Option<Self::Value> {
        entry_for(self@, key)
    }

    fn get(&'a self, key: &str) -> (value: Option<Self::Value>) {
        get_hashed_by_str(self, key)
    }
}

/// A hash map with the hasher of std is a variable map.
impl<'a, V: 'a> VariableMap<'a> for HashMap<String, V> {
    type Value = &'a V;

    open spec fn lookup(&self, key: Seq<char>) -> Option<Self::Value> {
        entry_for(self@, key)
    }

    fn get(&'a self, key: &str) -> (value: Option<Self::Value>) {
        get_hashed_by_string(self, key)
    }
}

/// [`VariableMap`] produced by [`fallback()`].
#[derive(Debug, Clone, Copy, PartialEq, Eq, PartialOrd, Ord, Hash, Default)]
pub struct FallbackSubstitution<Base, Fallback> {
    base: Base,
    fallback: Fallback,
}

impl<Base, Fallback> FallbackSubstitution<Base, Fallback> {
    /// The map that is asked first.
    pub closed spec fn base(&self) -> Base {
        self.base
    }

    /// The map that is asked where the first one has no value.
    pub closed spec fn fallback(&self) -> Fallback {
        self.fallback
    }
}

impl<'a, Base, Fallback> VariableMap<'a> for FallbackSubstitution<Base, Fallback> where
    Base: VariableMap<'a>,
    Fallback: VariableMap<'a, Value = Base::Value>,
 {
    type Value = Base::Value;

    open spec fn lookup(&self, key: Seq<char>) -> Option<Self::Value> {
        match self.base().lookup(key) {
            Some(value) => Some(value),
            None => self.fallback().lookup(key),
        }
    }

    fn get(&'a self, key: &str) -> (value: Option<Self::Value>) {
        match self.base.get(key) {
            Some(value) => Some(value),
            None => self.fallback.get(key),
        }
    }
}

/// Creates a [`VariableMap`] that will first try to find values in `base`, and then
/// attempt to find values in `alternative`.
pub fn fallback<Base, Fallback>(base: Base, alternative: Fallback) -> (map: FallbackSubstitution<
    Base,
    Fallback,
>)
    ensures
        map.base() == base,
        map.fallback() == alternative,
{
    FallbackSubstitution { base, fallback: alternative }
}

/// [`VariableMap`] produced by [`from_fn()`].
#[derive(Debug)]
#[verifier::reject_recursive_types(V)]
pub struct FnSubstitution<F, V> where F: Fn(&str) -> Option<V> {
    func: F,
    value: std::marker::PhantomData<V>,
}

/// Whether a function can stand for a variable map: it takes every name, and what it
/// returns depends on the text of the name alone.
pub open spec fn is_lookup_function<F, V>(func: F) -> bool where F: Fn(&str) -> Option<V> {
    &&& forall|name: &str| call_requires(func, (name,))
    &&& forall|first: &str, second: &str, one: Option<V>, other: Option<V>|
        first@ == second@ && call_ensures(func, (first,), one) && call_ensures(
            func,
            (second,),
            other,
        ) ==> one == other
}

/// Whether a function may return the given value for a name.
pub open spec fn may_return<F, V>(func: F, key: Seq<char>, value: Option<V>) -> bool where
    F: Fn(&str) -> Option<V>,
 {
    exists|name: &str| name@ == key && #[trigger] call_ensures(func, (name,), value)
}

/// What a function returns for a name.
pub open spec fn function_value<F, V>(func: F, key: Seq<char>) -> Option<V> where
    F: Fn(&str) -> Option<V>,
 {
    choose|value: Option<V>| may_return(func, key, value)
}

impl<F, V> FnSubstitution<F, V> where F: Fn(&str) -> Option<V> {
    /// The function takes every name and is determined by it.
    #[verifier::type_invariant]
    spec fn well_behaved(&self) -> bool {
        is_lookup_function(self.func)
    }

    /// The function that is asked for the values.
    pub closed spec fn function(&self) -> F {
        self.func
    }
}

impl<'a, F, V> VariableMap<'a> for FnSubstitution<F, V> where F: 'a + Fn(&str) -> Option<V> {
    type Value = V;

    open spec fn lookup(&self, key: Seq<char>) -> Option<Self::Value> {
        function_value(self.function(), key)
    }

    fn get(&'a self, key: &str) -> (value: Option<Self::Value>) {
        proof {
            use_type_invariant(self);
        }
        let value = (self.func)(key);
        assert(may_return(self.func, key@, value));
        value
    }
}

/// Creates a [`VariableMap`] that asks a function for the value of each name.
///
/// The function must take every name, and return the same for the same name whenever
/// it is asked.
pub fn from_fn<F, V>(func: F) -> (map: FnSubstitution<F, V>) where F: Fn(&str) -> Option<V>
    requires
        is_lookup_function(func),
    ensures
        map.function() == func,
{
    FnSubstitution { func, value: std::marker::PhantomData }
}

/// [`VariableMap`] produced by [`map_value()`].
#[derive(Debug)]
#[verifier::reject_recursive_types(V)]
pub struct MapSubstitution<'a, M, F, V> where M: VariableMap<'a>, F: Fn(M::Value) -> V {
    map: M,
    func: F,
    value: std::marker::PhantomData<&'a V>,
}

/// Whether a function can be applied to the values of a variable map: it takes every
/// value, and what it returns depends on the value alone.
pub open spec fn is_value_function<T, F, V>(func: F) -> bool where F: Fn(T) -> V {
    &&& forall|value: T| call_requires(func, (value,))
    &&& forall|value: T, one: V, other: V|
        call_ensures(func, (value,), one) && call_ensures(func, (value,), other) ==> one == other
}

/// What a function returns for a value.
pub open spec fn applied<T, F, V>(func: F, value: T) -> V where F: Fn(T) -> V {
    choose|result: V| call_ensures(func, (value,), result)
}

impl<'a, M, F, V> MapSubstitution<'a, M, F, V> where M: VariableMap<'a>, F: Fn(M::Value) -> V {
    /// The function takes every value and is determined by it.
    #[verifier::type_invariant]
    spec fn well_behaved(&self) -> bool {
        is_value_function::<M::Value, F, V>(self.func)
    }

    /// The map that is asked for the values.
    pub closed spec fn inner(&self) -> M {
        self.map
    }

    /// The function that is applied to the values.
    pub closed spec fn function(&self) -> F {
        self.func
    }
}

impl<'a, M, F, V> VariableMap<'a> for MapSubstitution<'a, M, F, V> where
    M: VariableMap<'a>,
    F: Fn(M::Value) -> V,
 {
    type Value = V;

    open spec fn lookup(&self, key: Seq<char>) -> Option<Self::Value> {
        match self.inner().lookup(key) {
            Some(value) => Some(applied(self.function(), value)),
            None => None,
        }
    }

    fn get(&'a self, key: &str) -> (value: Option<Self::Value>) {
        proof {
            use_type_invariant(self);
        }
        match self.map.get(key) {
            Some(value) => Some((self.func)(value)),
            None => None,
        }
    }
}

/// Creates a [`VariableMap`] that will apply a function `func` to values found in `map`.
///
/// The function must take every value, and return the same for the same value whenever
/// it is applied.
pub fn map_value<'a, M, F, V>(map: M, func: F) -> (mapped: MapSubstitution<'a, M, F, V>) where
    M: VariableMap<'a>,
    F: Fn(M::Value) -> V,

    requires
        is_value_function::<M::Value, F, V>(func),
    ensures
        mapped.inner() == map,
        mapped.function() == func,
{
    MapSubstitution { map, func, value: std::marker::PhantomData }
}

} // verus!
