//! What holds of the bridge for every value.

use vstd::prelude::*;
use crate::engine::{text_lt, ValueModel};
use crate::error::RemapFault;
use crate::float::{is_nan_bits, NEGATIVE_INFINITY_BITS, POSITIVE_INFINITY_BITS};
use crate::host::{host_type, HostModel};
use crate::value::{
    convertible, entry_convertible, fault_of, fields_from, first_entry_fault_at, first_fault_at,
    free_of_nan, key_text, lowered, lowered_pairs, raises_to,
};

verus! {

/// A null, a boolean, an integer and a float that is no NaN each convert to an
/// engine value, and that value converts back to them and to nothing else.
pub proof fn lemma_primitive_round_trip(h: HostModel, back: HostModel)
    requires
        h is Null || h is Bool || h is Int || (h is Float && !is_nan_bits(h->Float_0)),
        raises_to(lowered(h), back),
    ensures
        convertible(h),
        raises_to(lowered(h), h),
        back == h,
{
}

/// A text converts to the byte string of its encoding, and that byte string
/// converts back to the text and to nothing else.
pub proof fn lemma_text_round_trip(text: Seq<char>, back: HostModel)
    requires
        raises_to(lowered(HostModel::Text(text)), back),
    ensures
        convertible(HostModel::Text(text)),
        raises_to(lowered(HostModel::Text(text)), HostModel::Text(text)),
        back == HostModel::Text(text),
{
    vstd::utf8::encode_utf8_valid_utf8(text);
    vstd::utf8::encode_utf8_decode_utf8(text);
}

/// A byte sequence converts to a byte string, which converts back to a text,
/// never to a byte sequence.
pub proof fn lemma_bytes_come_back_as_text(bytes: Seq<u8>, back: HostModel)
    requires
        raises_to(lowered(HostModel::Bytes(bytes)), back),
    ensures
        convertible(HostModel::Bytes(bytes)),
        back is Text,
{
}

/// A float that is a NaN is refused as an invalid float.
pub proof fn lemma_nan_refused(bits: u64)
    requires
        is_nan_bits(bits),
    ensures
        !convertible(HostModel::Float(bits)),
        fault_of(HostModel::Float(bits)) == RemapFault::InvalidFloat,
{
}

/// Both infinities are accepted, and kept as they are.
pub proof fn lemma_infinities_accepted()
    ensures
        convertible(HostModel::Float(POSITIVE_INFINITY_BITS)),
        convertible(HostModel::Float(NEGATIVE_INFINITY_BITS)),
        lowered(HostModel::Float(POSITIVE_INFINITY_BITS)) == ValueModel::Float(
            POSITIVE_INFINITY_BITS,
        ),
        lowered(HostModel::Float(NEGATIVE_INFINITY_BITS)) == ValueModel::Float(
            NEGATIVE_INFINITY_BITS,
        ),
{
    assert((0x7ff0_0000_0000_0000u64 & 0x000f_ffff_ffff_ffffu64) == 0) by (bit_vector);
    assert((0xfff0_0000_0000_0000u64 & 0x000f_ffff_ffff_ffffu64) == 0) by (bit_vector);
}

/// Whatever order a host mapping had, the entries of the mapping that an object
/// converts to come in the ascending order of their keys, so no key comes twice.
pub proof fn lemma_raised_keys_ascend(m: ValueModel, entries: Seq<(HostModel, HostModel)>, i: int, j: int)
    requires
        raises_to(m, HostModel::Dict(entries)),
        0 <= i < j < entries.len(),
    ensures
        text_lt(key_text(entries[i].0), key_text(entries[j].0)),
        entries[i].0 != entries[j].0,
{
    if key_text(entries[i].0) == key_text(entries[j].0) {
        lemma_text_lt_asymmetric(key_text(entries[i].0), key_text(entries[j].0));
    }
}

/// Of two texts at most one comes before the other, and none before itself.
pub proof fn lemma_text_lt_asymmetric(a: Seq<char>, b: Seq<char>)
    requires
        text_lt(a, b),
    ensures
        !text_lt(b, a),
    decreases a.len(),
{
    if a.len() > 0 && b.len() > 0 && a[0] == b[0] {
        lemma_text_lt_asymmetric(a.drop_first(), b.drop_first());
    }
}

/// Whether each of `keys` comes before all that follow it.
pub open spec fn ascending(keys: Seq<Seq<char>>) -> bool {
    forall|i: int, j: int| 0 <= i < j < keys.len() ==> text_lt(#[trigger] keys[i], #[trigger] keys[j])
}

/// Two ascending sequences that hold the same keys are one sequence.
pub proof fn lemma_ascending_same_keys(a: Seq<Seq<char>>, b: Seq<Seq<char>>)
    requires
        ascending(a),
        ascending(b),
        forall|i: int| 0 <= i < a.len() ==> b.contains(#[trigger] a[i]),
        forall|j: int| 0 <= j < b.len() ==> a.contains(#[trigger] b[j]),
    ensures
        a == b,
    decreases a.len(),
{
    if a.len() == 0 {
        if b.len() > 0 {
            assert(a.contains(b[0]));
        }
        assert(a =~= b);
    } else {
        assert(b.contains(a[0]));
        let j = choose|j: int| 0 <= j < b.len() && b[j] == a[0];
        assert(a.contains(b[0]));
        let i = choose|i: int| 0 <= i < a.len() && a[i] == b[0];
        if j > 0 && i > 0 {
            assert(text_lt(b[0], b[j]));
            assert(text_lt(a[0], a[i]));
            lemma_text_lt_asymmetric(b[0], a[0]);
        }
        assert(a[0] == b[0]);
        let a1 = a.drop_first();
        let b1 = b.drop_first();
        assert forall|x: int| 0 <= x < a1.len() implies b1.contains(#[trigger] a1[x]) by {
            assert(a1[x] == a[x + 1]);
            assert(b.contains(a[x + 1]));
            let y = choose|y: int| 0 <= y < b.len() && b[y] == a[x + 1];
            if y == 0 {
                assert(text_lt(a[0], a[x + 1]));
                lemma_text_lt_asymmetric(a[0], a[x + 1]);
            }
            assert(b1[y - 1] == b[y]);
        }
        assert forall|y: int| 0 <= y < b1.len() implies a1.contains(#[trigger] b1[y]) by {
            assert(b1[y] == b[y + 1]);
            assert(a.contains(b[y + 1]));
            let x = choose|x: int| 0 <= x < a.len() && a[x] == b[y + 1];
            if x == 0 {
                assert(text_lt(b[0], b[y + 1]));
                lemma_text_lt_asymmetric(b[0], b[y + 1]);
            }
            assert(a1[x - 1] == a[x]);
        }
        assert(ascending(a1)) by {
            assert forall|p: int, q: int| 0 <= p < q < a1.len() implies text_lt(
                #[trigger] a1[p],
                #[trigger] a1[q],
            ) by {
                assert(text_lt(a[p + 1], a[q + 1]));
            }
        }
        assert(ascending(b1)) by {
            assert forall|p: int, q: int| 0 <= p < q < b1.len() implies text_lt(
                #[trigger] b1[p],
                #[trigger] b1[q],
            ) by {
                assert(text_lt(b[p + 1], b[q + 1]));
            }
        }
        lemma_ascending_same_keys(a1, b1);
        assert(a.len() == b.len());
        assert forall|x: int| 0 <= x < a.len() implies a[x] == b[x] by {
            if x > 0 {
                assert(a[x] == a1[x - 1]);
                assert(b[x] == b1[x - 1]);
            }
        }
        assert(a =~= b);
    }
}

/// An engine value becomes one host value and no other.
pub proof fn lemma_raised_value_unique(m: ValueModel, h: HostModel, g: HostModel)
    requires
        raises_to(m, h),
        raises_to(m, g),
    ensures
        h == g,
    decreases h,
{
    match h {
        HostModel::List(items) => {
            let a = m->Array_0;
            let others = g->List_0;
            assert forall|i: int| 0 <= i < items.len() implies items[i] == others[i] by {
                lemma_raised_value_unique(a[i], items[i], others[i]);
            }
            assert(items =~= others);
        },
        HostModel::Dict(entries) => {
            let fields = m->Object_0;
            let others = g->Dict_0;
            let a = Seq::new(entries.len(), |i: int| key_text(entries[i].0));
            let b = Seq::new(others.len(), |i: int| key_text(others[i].0));
            assert forall|i: int| 0 <= i < a.len() implies b.contains(#[trigger] a[i]) by {
                assert(fields.dom().contains(key_text(entries[i].0)));
                let j = choose|j: int|
                    0 <= j < others.len() && key_text((#[trigger] others[j]).0) == a[i];
                assert(b[j] == a[i]);
            }
            assert forall|j: int| 0 <= j < b.len() implies a.contains(#[trigger] b[j]) by {
                assert(fields.dom().contains(key_text(others[j].0)));
                let i = choose|i: int|
                    0 <= i < entries.len() && key_text((#[trigger] entries[i]).0) == b[j];
                assert(a[i] == b[j]);
            }
            assert(ascending(a)) by {
                assert forall|p: int, q: int| 0 <= p < q < a.len() implies text_lt(
                    #[trigger] a[p],
                    #[trigger] a[q],
                ) by {
                    assert(text_lt(key_text(entries[p].0), key_text(entries[q].0)));
                }
            }
            assert(ascending(b)) by {
                assert forall|p: int, q: int| 0 <= p < q < b.len() implies text_lt(
                    #[trigger] b[p],
                    #[trigger] b[q],
                ) by {
                    assert(text_lt(key_text(others[p].0), key_text(others[q].0)));
                }
            }
            lemma_ascending_same_keys(a, b);
            assert forall|i: int| 0 <= i < entries.len() implies entries[i] == others[i] by {
                assert(a[i] == b[i]);
                assert(entries[i].0 is Text && others[i].0 is Text);
                lemma_raised_value_unique(fields[a[i]], entries[i].1, others[i].1);
            }
            assert(entries =~= others);
        },
        _ => {},
    }
}

/// No float in a convertible host value is a NaN.
pub proof fn lemma_convertible_is_free_of_nan(h: HostModel)
    requires
        convertible(h),
    ensures
        free_of_nan(h),
    decreases h,
{
    match h {
        HostModel::List(items) => {
            assert forall|i: int| 0 <= i < items.len() implies free_of_nan(
                #[trigger] items[i],
            ) by {
                lemma_convertible_is_free_of_nan(items[i]);
            }
        },
        HostModel::Dict(entries) => {
            assert forall|i: int| 0 <= i < entries.len() implies free_of_nan(
                (#[trigger] entries[i]).0,
            ) && free_of_nan(entries[i].1) by {
                assert(entry_convertible(entries[i]));
                lemma_convertible_is_free_of_nan(entries[i].1);
            }
        },
        _ => {},
    }
}

/// Whether no two of `pairs` have one key.
pub open spec fn distinct_keys(pairs: Seq<(Seq<char>, ValueModel)>) -> bool {
    forall|i: int, j: int|
        0 <= i < j < pairs.len() ==> (#[trigger] pairs[i]).0 != (#[trigger] pairs[j]).0
}

/// The map written from pairs with distinct keys holds each pair, and no key
/// but theirs.
pub proof fn lemma_fields_hold_pairs(pairs: Seq<(Seq<char>, ValueModel)>)
    requires
        distinct_keys(pairs),
    ensures
        forall|k: Seq<char>| #[trigger]
            fields_from(pairs).dom().contains(k) ==> exists|i: int|
                0 <= i < pairs.len() && (#[trigger] pairs[i]).0 == k,
        forall|i: int|
            0 <= i < pairs.len() ==> fields_from(pairs).dom().contains((#[trigger] pairs[i]).0)
                && fields_from(pairs)[pairs[i].0] == pairs[i].1,
    decreases pairs.len(),
{
    if pairs.len() > 0 {
        let front = pairs.drop_last();
        let last = pairs.last();
        assert(distinct_keys(front)) by {
            assert forall|i: int, j: int| 0 <= i < j < front.len() implies (#[trigger] front[i]).0
                != (#[trigger] front[j]).0 by {
                assert(front[i] == pairs[i] && front[j] == pairs[j]);
            }
        }
        lemma_fields_hold_pairs(front);
        assert(fields_from(pairs) == fields_from(front).insert(last.0, last.1));
        assert forall|k: Seq<char>| #[trigger]
            fields_from(pairs).dom().contains(k) implies exists|i: int|
            0 <= i < pairs.len() && (#[trigger] pairs[i]).0 == k by {
            if k == last.0 {
                assert(pairs[pairs.len() - 1].0 == k);
            } else {
                assert(fields_from(front).dom().contains(k));
                let i = choose|i: int| 0 <= i < front.len() && (#[trigger] front[i]).0 == k;
                assert(pairs[i] == front[i]);
            }
        }
        assert forall|i: int| 0 <= i < pairs.len() implies fields_from(pairs).dom().contains(
            (#[trigger] pairs[i]).0,
        ) && fields_from(pairs)[pairs[i].0] == pairs[i].1 by {
            if i < pairs.len() - 1 {
                assert(front[i] == pairs[i]);
                assert(pairs[i].0 != pairs[pairs.len() - 1].0);
            }
        }
    }
}

/// Two mappings with text keys, no key twice in either, that hold the same
/// entries become the same object, in whatever order the host wrote them.
pub proof fn lemma_insertion_order_forgotten(
    a: Seq<(HostModel, HostModel)>,
    b: Seq<(HostModel, HostModel)>,
)
    requires
        forall|i: int, j: int|
            0 <= i < j < a.len() ==> key_text((#[trigger] a[i]).0) != key_text(
                (#[trigger] a[j]).0,
            ),
        forall|i: int, j: int|
            0 <= i < j < b.len() ==> key_text((#[trigger] b[i]).0) != key_text(
                (#[trigger] b[j]).0,
            ),
        forall|i: int| 0 <= i < a.len() ==> b.contains(#[trigger] a[i]),
        forall|j: int| 0 <= j < b.len() ==> a.contains(#[trigger] b[j]),
    ensures
        lowered(HostModel::Dict(a)) == lowered(HostModel::Dict(b)),
{
    let pa = lowered_pairs(a);
    let pb = lowered_pairs(b);
    assert(distinct_keys(pa)) by {
        assert forall|i: int, j: int| 0 <= i < j < pa.len() implies (#[trigger] pa[i]).0 != (
        #[trigger] pa[j]).0 by {
            assert(key_text(a[i].0) != key_text(a[j].0));
        }
    }
    assert(distinct_keys(pb)) by {
        assert forall|i: int, j: int| 0 <= i < j < pb.len() implies (#[trigger] pb[i]).0 != (
        #[trigger] pb[j]).0 by {
            assert(key_text(b[i].0) != key_text(b[j].0));
        }
    }
    lemma_fields_hold_pairs(pa);
    lemma_fields_hold_pairs(pb);
    let fa = fields_from(pa);
    let fb = fields_from(pb);
    assert forall|k: Seq<char>| fa.dom().contains(k) implies fb.dom().contains(k) && fa[k]
        == fb[k] by {
        let i = choose|i: int| 0 <= i < pa.len() && (#[trigger] pa[i]).0 == k;
        assert(b.contains(a[i]));
        let j = choose|j: int| 0 <= j < b.len() && b[j] == a[i];
        assert(pb[j] == pa[i]);
    }
    assert forall|k: Seq<char>| fb.dom().contains(k) implies fa.dom().contains(k) by {
        let j = choose|j: int| 0 <= j < pb.len() && (#[trigger] pb[j]).0 == k;
        assert(a.contains(b[j]));
        let i = choose|i: int| 0 <= i < a.len() && a[i] == b[j];
        assert(pa[i] == pb[j]);
    }
    assert(fa =~= fb);
}

/// A list in which the item at `at` is not convertible has a first such item.
pub proof fn lemma_first_fault(items: Seq<HostModel>, at: int)
    requires
        0 <= at < items.len(),
        !convertible(items[at]),
    ensures
        0 <= first_fault_at(items) <= at,
        !convertible(items[first_fault_at(items)]),
    decreases at,
{
    if exists|j: int| 0 <= j < at && !convertible(#[trigger] items[j]) {
        let j = choose|j: int| 0 <= j < at && !convertible(#[trigger] items[j]);
        lemma_first_fault(items, j);
    } else {
        assert(0 <= at < items.len() && !convertible(items[at]) && forall|j: int|
            0 <= j < at ==> convertible(#[trigger] items[j]));
    }
}

/// A mapping in which the entry at `at` is not convertible has a first such
/// entry.
pub proof fn lemma_first_entry_fault(entries: Seq<(HostModel, HostModel)>, at: int)
    requires
        0 <= at < entries.len(),
        !entry_convertible(entries[at]),
    ensures
        0 <= first_entry_fault_at(entries) <= at,
        !entry_convertible(entries[first_entry_fault_at(entries)]),
    decreases at,
{
    if exists|j: int| 0 <= j < at && !entry_convertible(#[trigger] entries[j]) {
        let j = choose|j: int| 0 <= j < at && !entry_convertible(#[trigger] entries[j]);
        lemma_first_entry_fault(entries, j);
    } else {
        assert(0 <= at < entries.len() && !entry_convertible(entries[at]) && forall|j: int|
            0 <= j < at ==> entry_convertible(#[trigger] entries[j]));
    }
}

/// A list that is not convertible is refused with the fault of its first item
/// that is not convertible.
pub proof fn lemma_list_fault(items: Seq<HostModel>)
    requires
        !convertible(HostModel::List(items)),
    ensures
        0 <= first_fault_at(items) < items.len(),
        !convertible(items[first_fault_at(items)]),
        fault_of(HostModel::List(items)) == fault_of(items[first_fault_at(items)]),
{
    let at = choose|i: int| 0 <= i < items.len() && !convertible(#[trigger] items[i]);
    lemma_first_fault(items, at);
}

/// A mapping that is not convertible is refused for its first entry that is not
/// convertible: for the key where that is no text, and else with the fault of
/// the value.
pub proof fn lemma_dict_fault(entries: Seq<(HostModel, HostModel)>)
    requires
        !convertible(HostModel::Dict(entries)),
    ensures
        0 <= first_entry_fault_at(entries) < entries.len(),
        !entry_convertible(entries[first_entry_fault_at(entries)]),
        fault_of(HostModel::Dict(entries)) == (if entries[first_entry_fault_at(entries)].0 is Text {
            fault_of(entries[first_entry_fault_at(entries)].1)
        } else {
            RemapFault::UnsupportedType(host_type(entries[first_entry_fault_at(entries)].0))
        }),
{
    let at = choose|i: int| 0 <= i < entries.len() && !entry_convertible(#[trigger] entries[i]);
    lemma_first_entry_fault(entries, at);
}

/// Whether `h` is not convertible and holds no NaN.
#[verifier::opaque]
pub open spec fn refused_without_nan(h: HostModel) -> bool {
    !convertible(h) && free_of_nan(h)
}

/// Whether `h` is refused as of an unsupported type.
#[verifier::opaque]
pub open spec fn refused_as_unsupported(h: HostModel) -> bool {
    fault_of(h) is UnsupportedType
}

/// A part of a value that holds no NaN, if it is not convertible, is refused
/// and holds no NaN.
proof fn lemma_part_refused_without_nan(h: HostModel, i: int)
    requires
        refused_without_nan(h),
    ensures
        h is List && 0 <= i < h->List_0.len() && !convertible(h->List_0[i])
            ==> refused_without_nan(h->List_0[i]),
        h is Dict && 0 <= i < h->Dict_0.len() && !convertible(h->Dict_0[i].1)
            ==> refused_without_nan(h->Dict_0[i].1),
        !(h is Float),
        !convertible(h),
{
    reveal(refused_without_nan);
    lemma_part_is_free_of_nan(h, i);
}

/// One level of the law below: a value that is refused and holds no NaN is
/// refused as of an unsupported type at once, or for a part of which the same
/// holds.
proof fn lemma_unsupported_step(h: HostModel) -> (part: HostModel)
    requires
        refused_without_nan(h),
    ensures
        refused_as_unsupported(h) || (decreases_to!(h => part) && refused_without_nan(part) && (
        refused_as_unsupported(part) ==> refused_as_unsupported(h))),
{
    reveal(refused_as_unsupported);
    if h is List {
        let items = h->List_0;
        lemma_part_refused_without_nan(h, first_fault_at(items));
        lemma_list_fault(items);
        items[first_fault_at(items)]
    } else if h is Dict {
        let entries = h->Dict_0;
        lemma_part_refused_without_nan(h, first_entry_fault_at(entries));
        lemma_dict_fault(entries);
        entries[first_entry_fault_at(entries)].1
    } else {
        lemma_part_refused_without_nan(h, 0);
        lemma_leaf_fault(h);
        h
    }
}

/// The law below, over the two predicates.
proof fn lemma_unsupported_at_any_depth(h: HostModel)
    requires
        refused_without_nan(h),
    ensures
        refused_as_unsupported(h),
    decreases h,
{
    let part = lemma_unsupported_step(h);
    if !refused_as_unsupported(h) {
        lemma_unsupported_at_any_depth(part);
    }
}

/// A host value that is not convertible and holds no NaN, at any depth, is
/// refused as of an unsupported type.
pub proof fn lemma_fault_without_nan_is_unsupported(h: HostModel)
    requires
        !convertible(h),
        free_of_nan(h),
    ensures
        fault_of(h) is UnsupportedType,
{
    reveal(refused_without_nan);
    reveal(refused_as_unsupported);
    lemma_unsupported_at_any_depth(h);
}

/// The items of a list, and the values of a mapping, that holds no NaN hold
/// none either.
pub proof fn lemma_part_is_free_of_nan(h: HostModel, i: int)
    requires
        free_of_nan(h),
    ensures
        h is List && 0 <= i < h->List_0.len() ==> free_of_nan(h->List_0[i]),
        h is Dict && 0 <= i < h->Dict_0.len() ==> free_of_nan(h->Dict_0[i].1),
        h is Float ==> !is_nan_bits(h->Float_0),
{
    if h is Dict && 0 <= i < h->Dict_0.len() {
        assert(free_of_nan(h->Dict_0[i].0) && free_of_nan(h->Dict_0[i].1));
    }
}

/// A value that is neither a list nor a mapping, and not convertible, is
/// refused as an invalid float where it is a float, and else as of an
/// unsupported type.
pub proof fn lemma_leaf_fault(h: HostModel)
    requires
        !(h is List),
        !(h is Dict),
        !convertible(h),
    ensures
        h is Float ==> fault_of(h) == RemapFault::InvalidFloat && is_nan_bits(h->Float_0),
        !(h is Float) ==> fault_of(h) == RemapFault::UnsupportedType(host_type(h)),
{
}

/// A host value of a type outside the engine's model is refused as of an
/// unsupported type, under the name of its type.
pub proof fn lemma_unsupported_refused(h: HostModel)
    requires
        h is Timestamp || h is Other,
    ensures
        !convertible(h),
        fault_of(h) == RemapFault::UnsupportedType(host_type(h)),
{
}

/// A list is convertible only if each of its items is, and a mapping only if
/// each of its keys is a text and each of its values is convertible: a value of
/// an unsupported type is refused at any depth.
pub proof fn lemma_unsupported_refused_within(h: HostModel, i: int)
    requires
        convertible(h),
    ensures
        h is List && 0 <= i < h->List_0.len() ==> convertible(h->List_0[i]),
        h is Dict && 0 <= i < h->Dict_0.len() ==> h->Dict_0[i].0 is Text && convertible(
            h->Dict_0[i].1,
        ),
        !(h is Timestamp) && !(h is Other),
{
    if h is Dict && 0 <= i < h->Dict_0.len() {
        assert(entry_convertible(h->Dict_0[i]));
    }
}

} // verus!
