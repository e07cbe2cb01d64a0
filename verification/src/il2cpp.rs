//! Views of IL2CPP collections and threads. An IL2CPP object or thread is
//! held by its address; the methods of a collection are held as the calls
//! that reach them, so that the bounds and iteration logic stay here.

use vstd::prelude::*;
use core::marker::PhantomData;

verus! {

/// An `IList` object together with its `get_Item`, `set_Item` and
/// `get_Count` methods, each called with the object's address.
#[verifier::reject_recursive_types(T)]
pub struct IList<T, G, S, C>
where
    G: Fn(usize, i32) -> T,
    S: Fn(usize, i32, T),
    C: Fn(usize) -> i32,
{
    pub this: usize,
    get_item: G,
    set_item: S,
    get_count: C,
    _item: PhantomData<T>,
}

impl<T, G, S, C> IList<T, G, S, C>
where
    G: Fn(usize, i32) -> T,
    S: Fn(usize, i32, T),
    C: Fn(usize) -> i32,
{
    /// A list over the object at `this` and its three methods.
    pub fn with_methods(this: usize, get_item: G, set_item: S, get_count: C) -> (r: Self)
        ensures
            r.object() == this,
            r.item_getter() == get_item,
            r.item_setter() == set_item,
            r.count_getter() == get_count,
    {
        IList { this, get_item, set_item, get_count, _item: PhantomData }
    }

    /// The address of the list object.
    pub closed spec fn object(&self) -> usize {
        self.this
    }

    pub closed spec fn item_getter(&self) -> G {
        self.get_item
    }

    pub closed spec fn item_setter(&self) -> S {
        self.set_item
    }

    pub closed spec fn count_getter(&self) -> C {
        self.get_count
    }

    /// The element count, as `get_Count` reports it.
    pub fn count(&self) -> (r: i32)
        requires
            call_requires(self.count_getter(), (self.object(),)),
        ensures
            call_ensures(self.count_getter(), (self.object(),), r),
    {
        (self.get_count)(self.this)
    }

    /// The element at `i`, or `None` when `i` is out of range (negative, or
    /// not below the count).
    pub fn get(&self, i: i32) -> (r: Option<T>)
        requires
            call_requires(self.count_getter(), (self.object(),)),
            forall|c: i32| #[trigger] call_ensures(self.count_getter(), (self.object(),), c) && 0 <= i < c
                ==> call_requires(self.item_getter(), (self.object(), i)),
        ensures
            i < 0 ==> r is None,
            i >= 0 ==> exists|c: i32| #[trigger] call_ensures(self.count_getter(), (self.object(),), c) && if i < c {
                r matches Some(x) && call_ensures(self.item_getter(), (self.object(), i), x)
            } else {
                r is None
            },
    {
        if i >= 0 && i < self.count() {
            Some((self.get_item)(self.this, i))
        } else {
            None
        }
    }

    /// Stores `value` at `i`; `false` (and nothing stored) when `i` is out
    /// of range.
    pub fn set(&self, i: i32, value: T) -> (r: bool)
        requires
            call_requires(self.count_getter(), (self.object(),)),
            forall|c: i32| #[trigger] call_ensures(self.count_getter(), (self.object(),), c) && 0 <= i < c
                ==> call_requires(self.item_setter(), (self.object(), i, value)),
        ensures
            i < 0 ==> !r,
            i >= 0 ==> exists|c: i32| #[trigger] call_ensures(self.count_getter(), (self.object(),), c) && r == (i < c)
                && (r ==> call_ensures(self.item_setter(), (self.object(), i, value), ())),
    {
        if i >= 0 && i < self.count() {
            (self.set_item)(self.this, i, value);
            true
        } else {
            false
        }
    }

    /// An iterator from the first element on.
    pub fn iter<'a>(&'a self) -> (r: IListIter<'a, T, G, S, C>)
        ensures
            r.source() == self,
            r.position() == -1,
    {
        IListIter { list: self, i: -1 }
    }
}

/// Walks an `IList` by index until `get` reports the end.
#[verifier::reject_recursive_types(T)]
pub struct IListIter<'a, T, G, S, C>
where
    G: Fn(usize, i32) -> T,
    S: Fn(usize, i32, T),
    C: Fn(usize) -> i32,
{
    list: &'a IList<T, G, S, C>,
    i: i32,
}

impl<'a, T, G, S, C> IListIter<'a, T, G, S, C>
where
    G: Fn(usize, i32) -> T,
    S: Fn(usize, i32, T),
    C: Fn(usize) -> i32,
{
    /// The list walked.
    pub closed spec fn source(&self) -> &'a IList<T, G, S, C> {
        self.list
    }

    /// The index of the element returned last (-1 before the first).
    pub closed spec fn position(&self) -> int {
        self.i as int
    }

    /// The next element: the one after the last returned, or `None` past
    /// the end.
    pub fn next(&mut self) -> (r: Option<T>)
        requires
            -1 <= old(self).position() < i32::MAX,
            call_requires(old(self).source().count_getter(), (old(self).source().object(),)),
            forall|c: i32| #[trigger] call_ensures(old(self).source().count_getter(), (old(self).source().object(),), c)
                && 0 <= old(self).position() + 1 < c
                ==> call_requires(old(self).source().item_getter(), (old(self).source().object(), (old(self).position() + 1) as i32)),
        ensures
            final(self).source() == old(self).source(),
            final(self).position() == old(self).position() + 1,
            exists|c: i32| #[trigger] call_ensures(old(self).source().count_getter(), (old(self).source().object(),), c)
                && if final(self).position() < c {
                    r matches Some(x) && call_ensures(old(self).source().item_getter(), (old(self).source().object(), final(self).position() as i32), x)
                } else {
                    r is None
                },
    {
        self.i = self.i + 1;
        self.list.get(self.i)
    }
}


/// An `IDictionary` object together with its `get_Item`, `set_Item` and
/// `Contains` methods, each called with the object's address.
#[verifier::reject_recursive_types(K)]
#[verifier::reject_recursive_types(V)]
pub struct IDictionary<K, V, G, S, C>
where
    G: Fn(usize, K) -> V,
    S: Fn(usize, K, V),
    C: Fn(usize, K) -> bool,
{
    pub this: usize,
    get_item: G,
    set_item: S,
    contains_key: C,
    _entry: PhantomData<(K, V)>,
}

impl<K, V, G, S, C> IDictionary<K, V, G, S, C>
where
    G: Fn(usize, K) -> V,
    S: Fn(usize, K, V),
    C: Fn(usize, K) -> bool,
{
    /// A dictionary over the object at `this` and its three methods.
    pub fn with_methods(this: usize, get_item: G, set_item: S, contains_key: C) -> (r: Self)
        ensures
            r.object() == this,
            r.item_getter() == get_item,
            r.item_setter() == set_item,
            r.key_test() == contains_key,
    {
        IDictionary { this, get_item, set_item, contains_key, _entry: PhantomData }
    }

    /// The address of the dictionary object.
    pub closed spec fn object(&self) -> usize {
        self.this
    }

    pub closed spec fn item_getter(&self) -> G {
        self.get_item
    }

    pub closed spec fn item_setter(&self) -> S {
        self.set_item
    }

    pub closed spec fn key_test(&self) -> C {
        self.contains_key
    }

    /// The value under `key`, as `get_Item` returns it.
    pub fn get(&self, key: K) -> (r: V)
        requires
            call_requires(self.item_getter(), (self.object(), key)),
        ensures
            call_ensures(self.item_getter(), (self.object(), key), r),
    {
        (self.get_item)(self.this, key)
    }

    /// Stores `value` under `key` through `set_Item`.
    pub fn set(&self, key: K, value: V)
        requires
            call_requires(self.item_setter(), (self.object(), key, value)),
        ensures
            call_ensures(self.item_setter(), (self.object(), key, value), ()),
    {
        (self.set_item)(self.this, key, value)
    }

    /// Whether the dictionary holds `key`, as `Contains` answers.
    pub fn contains(&self, key: K) -> (r: bool)
        requires
            call_requires(self.key_test(), (self.object(), key)),
        ensures
            call_ensures(self.key_test(), (self.object(), key), r),
    {
        (self.contains_key)(self.this, key)
    }
}

/// An `IEnumerator` object with its `get_Current` method (absent when the
/// class has none) and its `MoveNext` method.
#[verifier::reject_recursive_types(T)]
pub struct IEnumeratorIterator<T, G, M>
where
    G: Fn(usize) -> T,
    M: Fn(usize) -> bool,
{
    this: usize,
    get_current: Option<G>,
    move_next: M,
}

impl<T, G, M> IEnumeratorIterator<T, G, M>
where
    G: Fn(usize) -> T,
    M: Fn(usize) -> bool,
{
    /// An iterator over the enumerator at `this`.
    pub fn with_methods(this: usize, get_current: Option<G>, move_next: M) -> (r: Self)
        ensures
            r.object() == this,
            r.current_getter() == get_current,
            r.mover() == move_next,
    {
        IEnumeratorIterator { this, get_current, move_next }
    }

    pub closed spec fn object(&self) -> usize {
        self.this
    }

    pub closed spec fn current_getter(&self) -> Option<G> {
        self.get_current
    }

    pub closed spec fn mover(&self) -> M {
        self.move_next
    }

    /// Advances the enumerator and returns its current element; `None` when
    /// `MoveNext` reports the end, or when there is no `get_Current`.
    pub fn next(&mut self) -> (r: Option<T>)
        requires
            call_requires(old(self).mover(), (old(self).object(),)),
            old(self).current_getter() matches Some(g) ==> call_requires(g, (old(self).object(),)),
        ensures
            *final(self) == *old(self),
            match old(self).current_getter() {
                None => r is None,
                Some(g) => exists|moved: bool| #[trigger] call_ensures(old(self).mover(), (old(self).object(),), moved)
                    && if moved {
                        r matches Some(x) && call_ensures(g, (old(self).object(),), x)
                    } else {
                        r is None
                    },
            },
    {
        let get_current = match &self.get_current {
            Some(g) => g,
            None => return None,
        };
        if (self.move_next)(self.this) {
            Some(get_current(self.this))
        } else {
            None
        }
    }
}

/// An IL2CPP thread, held by its address.
#[derive(Clone, Copy)]
pub struct Thread(pub usize);

impl Thread {
    /// The thread at address `ptr`.
    pub fn from_raw(ptr: usize) -> (r: Thread)
        ensures
            r.0 == ptr,
    {
        Thread(ptr)
    }

    /// The thread's address.
    pub fn as_raw(&self) -> (r: usize)
        ensures
            r == self.0,
    {
        self.0
    }
}

/// One entry of a .NET `Dictionary`'s entries array.
pub struct Il2CppDictionaryEntry<K, V> {
    pub hash_code: i32,
    pub next: i32,
    pub key: K,
    pub value: V,
}

} // verus!
