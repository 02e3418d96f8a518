use std::hash::Hash;
use vstd::prelude::*;
use vstd::std_specs::cmp::PartialEqSpec;

verus! {

/// The discriminator by which events are routed to subscribers.
///
/// A type is one of a fixed set that the event model enumerates. Two types are
/// the same type exactly when `==` says so: the broker finds the backlog and
/// the subscribers of a type by comparing with `==`.
pub trait SubscriberEventType: Hash + Eq + Send + Sync + Clone {
    /// `==` is defined on the type and decides identity.
    proof fn lemma_eq_is_identity()
        ensures
            Self::obeys_eq_spec(),
            forall|a: Self, b: Self| #[trigger] a.eq_spec(&b) <==> (a == b),
    ;
}

/// No two entries of `keys` are the same type.
pub open spec fn distinct<Type>(keys: Seq<Type>) -> bool {
    forall|i: int, j: int| 0 <= i < j < keys.len() ==> keys[i] != keys[j]
}

/// The place of `key` among `keys`, if it occurs there.
pub open spec fn place_of<Type>(keys: Seq<Type>, key: Type) -> Option<int> {
    if keys.contains(key) {
        Some(keys.index_of(key))
    } else {
        None
    }
}

/// A key that does not occur yet can be added behind distinct keys: the keys
/// stay distinct, the new key stands last, and every other key keeps its place.
pub proof fn lemma_place_after_push<Type>(keys: Seq<Type>, key: Type, other: Type)
    requires
        distinct(keys),
        !keys.contains(key),
    ensures
        distinct(keys.push(key)),
        place_of(keys.push(key), other) == if other == key {
            Some(keys.len() as int)
        } else {
            place_of(keys, other)
        },
{
    let longer = keys.push(key);
    if other == key {
        assert(longer[keys.len() as int] == key);
    } else if keys.contains(other) {
        assert(longer[keys.index_of(other)] == other);
    }
}

/// Finds `key` among `keys` by comparing with `==`, front to back: the first
/// place at which it stands, or `None` where it stands nowhere.
pub fn position<Type: SubscriberEventType>(keys: &Vec<Type>, key: &Type) -> (place: Option<usize>)
    ensures
        match place {
            Some(i) => {
                &&& i < keys.len()
                &&& keys@[i as int] == *key
                &&& forall|j: int| 0 <= j < i ==> keys@[j] != *key
            },
            None => !keys@.contains(*key),
        },
{
    proof {
        Type::lemma_eq_is_identity();
    }
    let mut i: usize = 0;
    while i < keys.len()
        invariant
            i <= keys.len(),
            Type::obeys_eq_spec(),
            forall|a: Type, b: Type| #[trigger] a.eq_spec(&b) <==> (a == b),
            forall|j: int| 0 <= j < i ==> keys@[j] != *key,
        decreases keys.len() - i,
    {
        if keys[i] == *key {
            return Some(i);
        }
        i += 1;
    }
    None
}

} // verus!
