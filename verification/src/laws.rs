use vstd::prelude::*;

verus! {

use crate::codec::Codec;
use crate::error::StorageError;
use crate::store::{decodes_from, keys_with_value, spec_insert, spec_lookup};

/// The table after upserting a sequence of pairs, in order, starting from `m`.
pub open spec fn spec_insert_all<K: Codec, V: Codec>(
    m: Map<Seq<u8>, Seq<u8>>,
    entries: Seq<(K::V, V::V)>,
) -> Map<Seq<u8>, Seq<u8>>
    decreases entries.len(),
{
    if entries.len() == 0 {
        m
    } else {
        spec_insert::<K, V>(
            spec_insert_all::<K, V>(m, entries.drop_last()),
            entries.last().0,
            entries.last().1,
        )
    }
}

/// The distinct encoded keys of a sequence of pairs.
pub open spec fn encoded_keys<K: Codec, V: Codec>(entries: Seq<(K::V, V::V)>) -> Set<Seq<u8>> {
    entries.map_values(|e: (K::V, V::V)| K::spec_encode(e.0)).to_set()
}

/// The round-trip law makes every codec injective on its encodable values:
/// two encodable values with the same payload are the same value.
pub proof fn lemma_encode_injective<C: Codec>(x: C::V, y: C::V)
    requires
        C::spec_encodable(x),
        C::spec_encodable(y),
        C::spec_encode(x) == C::spec_encode(y),
    ensures
        x == y,
{
    C::lemma_round_trip(x);
    C::lemma_round_trip(y);
}

/// Round trip through the store: upserting an encodable pair and then
/// looking the key up yields exactly the value that was stored.
pub proof fn lemma_insert_then_lookup<K: Codec, V: Codec>(
    m: Map<Seq<u8>, Seq<u8>>,
    k: K::V,
    v: V::V,
)
    requires
        K::spec_encodable(k),
        V::spec_encodable(v),
    ensures
        spec_lookup::<K, V>(spec_insert::<K, V>(m, k, v), k) == Ok::<V::V, StorageError>(v),
{
    V::lemma_round_trip(v);
}

/// Upsert: storing twice under one key is the same table as storing the
/// second value once, so exactly one row holds the key and the lookup
/// yields the second value.
pub proof fn lemma_upsert<K: Codec, V: Codec>(
    m: Map<Seq<u8>, Seq<u8>>,
    k: K::V,
    v1: V::V,
    v2: V::V,
)
    requires
        K::spec_encodable(k),
        V::spec_encodable(v1),
        V::spec_encodable(v2),
    ensures
        spec_insert::<K, V>(spec_insert::<K, V>(m, k, v1), k, v2) == spec_insert::<K, V>(m, k, v2),
        spec_lookup::<K, V>(spec_insert::<K, V>(spec_insert::<K, V>(m, k, v1), k, v2), k) == Ok::<
            V::V,
            StorageError,
        >(v2),
{
    assert(spec_insert::<K, V>(spec_insert::<K, V>(m, k, v1), k, v2) =~= spec_insert::<K, V>(
        m,
        k,
        v2,
    ));
    V::lemma_round_trip(v2);
}

/// Uniqueness: after any sequence of upserts into an empty table, the rows
/// are exactly one per distinct encoded key inserted, never more.
pub proof fn lemma_uniqueness<K: Codec, V: Codec>(entries: Seq<(K::V, V::V)>)
    ensures
        spec_insert_all::<K, V>(Map::<Seq<u8>, Seq<u8>>::empty(), entries).dom() == encoded_keys::<
            K,
            V,
        >(entries),
    decreases entries.len(),
{
    let enc = |e: (K::V, V::V)| K::spec_encode(e.0);
    let mapped = entries.map_values(enc);
    if entries.len() == 0 {
        assert(spec_insert_all::<K, V>(Map::<Seq<u8>, Seq<u8>>::empty(), entries).dom()
            =~= encoded_keys::<K, V>(entries));
    } else {
        let prefix = entries.drop_last();
        lemma_uniqueness::<K, V>(prefix);
        let mapped_prefix = prefix.map_values(enc);
        assert(mapped_prefix =~= mapped.drop_last());
        assert forall|x: Seq<u8>|
            #[trigger] mapped.to_set().contains(x) implies mapped_prefix.to_set().contains(x) || x
            == K::spec_encode(entries.last().0) by {
            let i = choose|i: int| 0 <= i < mapped.len() && mapped[i] == x;
            if i < mapped.len() - 1 {
                assert(mapped_prefix[i] == x);
                assert(mapped_prefix.contains(x));
            }
        }
        assert forall|x: Seq<u8>| #[trigger] mapped_prefix.to_set().contains(x) implies mapped.to_set().contains(
            x,
        ) by {
            let i = choose|i: int| 0 <= i < mapped_prefix.len() && mapped_prefix[i] == x;
            assert(mapped[i] == x);
            assert(mapped.contains(x));
        }
        assert(mapped[mapped.len() - 1] == K::spec_encode(entries.last().0));
        assert(mapped.contains(mapped[mapped.len() - 1]));
        assert(spec_insert_all::<K, V>(Map::<Seq<u8>, Seq<u8>>::empty(), entries).dom()
            =~= encoded_keys::<K, V>(entries));
    }
}

/// Not-found: looking up a key that was never inserted yields `NotFound`,
/// never a value decoded from some other row.
pub proof fn lemma_never_inserted_not_found<K: Codec, V: Codec>(
    entries: Seq<(K::V, V::V)>,
    k: K::V,
)
    requires
        K::spec_encodable(k),
        forall|i: int|
            0 <= i < entries.len() ==> K::spec_encodable(#[trigger] entries[i].0) && entries[i].0
                != k,
    ensures
        spec_lookup::<K, V>(spec_insert_all::<K, V>(Map::<Seq<u8>, Seq<u8>>::empty(), entries), k)
            == Err::<V::V, StorageError>(StorageError::NotFound),
{
    lemma_uniqueness::<K, V>(entries);
    let m = spec_insert_all::<K, V>(Map::<Seq<u8>, Seq<u8>>::empty(), entries);
    let mapped = entries.map_values(|e: (K::V, V::V)| K::spec_encode(e.0));
    if m.contains_key(K::spec_encode(k)) {
        assert(mapped.to_set().contains(K::spec_encode(k)));
        let i = choose|i: int| 0 <= i < mapped.len() && mapped[i] == K::spec_encode(k);
        lemma_encode_injective::<K>(entries[i].0, k);
        assert(false);
    }
}

/// Reverse lookup emptiness: after any sequence of upserts into an empty
/// table, a value that was never inserted matches no row at all.
pub proof fn lemma_reverse_lookup_empty<K: Codec, V: Codec>(entries: Seq<(K::V, V::V)>, v: V::V)
    requires
        V::spec_encodable(v),
        forall|i: int|
            0 <= i < entries.len() ==> V::spec_encodable(#[trigger] entries[i].1) && entries[i].1
                != v,
    ensures
        keys_with_value(
            spec_insert_all::<K, V>(Map::<Seq<u8>, Seq<u8>>::empty(), entries),
            V::spec_encode(v),
        ) == Set::<Seq<u8>>::empty(),
    decreases entries.len(),
{
    let pv = V::spec_encode(v);
    if entries.len() == 0 {
        assert(keys_with_value(spec_insert_all::<K, V>(Map::<Seq<u8>, Seq<u8>>::empty(), entries), pv)
            =~= Set::<Seq<u8>>::empty());
    } else {
        let prefix = entries.drop_last();
        lemma_reverse_lookup_empty::<K, V>(prefix, v);
        let m0 = spec_insert_all::<K, V>(Map::<Seq<u8>, Seq<u8>>::empty(), prefix);
        let m = spec_insert_all::<K, V>(Map::<Seq<u8>, Seq<u8>>::empty(), entries);
        assert forall|rk: Seq<u8>| !(#[trigger] keys_with_value(m, pv).contains(rk)) by {
            if keys_with_value(m, pv).contains(rk) {
                if rk == K::spec_encode(entries.last().0) {
                    lemma_encode_injective::<V>(entries.last().1, v);
                } else {
                    assert(keys_with_value(m0, pv).contains(rk));
                }
            }
        }
        assert(keys_with_value(m, pv) =~= Set::<Seq<u8>>::empty());
    }
}

/// Reverse lookup completeness: after storing (a, v1), (b, v1), (c, v2) in
/// an empty table, with a, b, c distinct keys and v1, v2 distinct values,
/// the rows holding v1 are exactly those of a and b, and the row holding
/// v2 is exactly that of c; so the decoded keys a reverse lookup may hand
/// out are exactly {a, b} for v1 and exactly {c} for v2.
pub proof fn lemma_reverse_lookup_complete<K: Codec, V: Codec>(
    a: K::V,
    b: K::V,
    c: K::V,
    v1: V::V,
    v2: V::V,
)
    requires
        K::spec_encodable(a),
        K::spec_encodable(b),
        K::spec_encodable(c),
        V::spec_encodable(v1),
        V::spec_encodable(v2),
        a != b,
        a != c,
        b != c,
        v1 != v2,
    ensures
        ({
            let m = spec_insert::<K, V>(
                spec_insert::<K, V>(spec_insert::<K, V>(Map::empty(), a, v1), b, v1),
                c,
                v2,
            );
            keys_with_value(m, V::spec_encode(v1)) == set![K::spec_encode(a), K::spec_encode(b)]
                && keys_with_value(m, V::spec_encode(v2)) == set![K::spec_encode(c)]
        }),
        ({
            let m = spec_insert::<K, V>(
                spec_insert::<K, V>(spec_insert::<K, V>(Map::empty(), a, v1), b, v1),
                c,
                v2,
            );
            &&& forall|x: K::V|
                decodes_from::<K>(keys_with_value(m, V::spec_encode(v1)), x) <==> (x == a || x
                    == b)
            &&& forall|x: K::V|
                decodes_from::<K>(keys_with_value(m, V::spec_encode(v2)), x) <==> x == c
        }),
{
    let m = spec_insert::<K, V>(
        spec_insert::<K, V>(spec_insert::<K, V>(Map::empty(), a, v1), b, v1),
        c,
        v2,
    );
    if K::spec_encode(a) == K::spec_encode(b) {
        lemma_encode_injective::<K>(a, b);
    }
    if K::spec_encode(a) == K::spec_encode(c) {
        lemma_encode_injective::<K>(a, c);
    }
    if K::spec_encode(b) == K::spec_encode(c) {
        lemma_encode_injective::<K>(b, c);
    }
    if V::spec_encode(v1) == V::spec_encode(v2) {
        lemma_encode_injective::<V>(v1, v2);
    }
    assert(keys_with_value(m, V::spec_encode(v1)) =~= set![
        K::spec_encode(a),
        K::spec_encode(b),
    ]);
    assert(keys_with_value(m, V::spec_encode(v2)) =~= set![K::spec_encode(c)]);
    K::lemma_round_trip(a);
    K::lemma_round_trip(b);
    K::lemma_round_trip(c);
    let s1 = keys_with_value(m, V::spec_encode(v1));
    let s2 = keys_with_value(m, V::spec_encode(v2));
    assert forall|x: K::V| #[trigger] decodes_from::<K>(s1, x) implies (x == a || x == b) by {
        let rk = choose|rk: Seq<u8>| #[trigger] s1.contains(rk) && K::spec_decode(rk) == Some(x);
    }
    assert forall|x: K::V| x == a || x == b implies #[trigger] decodes_from::<K>(s1, x) by {
        if x == a {
            assert(s1.contains(K::spec_encode(a)) && K::spec_decode(K::spec_encode(a)) == Some(a));
        } else {
            assert(s1.contains(K::spec_encode(b)) && K::spec_decode(K::spec_encode(b)) == Some(b));
        }
    }
    assert forall|x: K::V| #[trigger] decodes_from::<K>(s2, x) implies x == c by {
        let rk = choose|rk: Seq<u8>| #[trigger] s2.contains(rk) && K::spec_decode(rk) == Some(x);
    }
    assert forall|x: K::V| x == c implies #[trigger] decodes_from::<K>(s2, x) by {
        assert(s2.contains(K::spec_encode(c)) && K::spec_decode(K::spec_encode(c)) == Some(c));
    }
}

} // verus!
