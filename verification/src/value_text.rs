//! The text that `{:?}` writes for a data item: the variant name with its contents, lists
//! in square brackets with `, ` between elements, map entries as `(key, value)` pairs.
use vstd::prelude::*;
use crate::cbor::{Value, VModel, model_list, model_pairs, lemma_model_list, lemma_model_pairs};
use crate::text::{dec_int, debug_quoted, push_i128, push_str, push_u64, str_debug};

verus! {

/// The text of a data item.
pub open spec fn value_debug(v: VModel) -> Seq<char>
    decreases v,
{
    match v {
        VModel::Int(n) => "Integer("@ + dec_int(n) + ")"@,
        VModel::Bytes(b) => "Bytes(["@ + bytes_debug(b) + "])"@,
        VModel::Float(f) => "Float("@ + dec_int(f as int) + ")"@,
        VModel::Text(t) => "Text("@ + str_debug(t) + ")"@,
        VModel::Bool(b) => if b {
            "Bool(true)"@
        } else {
            "Bool(false)"@
        },
        VModel::Null => "Null"@,
        VModel::Tag(t, inner) => "Tag("@ + dec_int(t as int) + ", "@ + value_debug(*inner) + ")"@,
        VModel::Array(a) => "Array(["@ + list_debug(a) + "])"@,
        VModel::Mapping(m) => "Mapping(["@ + pairs_debug(m) + "])"@,
    }
}

/// The texts of the items of a list, with `, ` between them.
pub open spec fn list_debug(s: Seq<VModel>) -> Seq<char>
    decreases s,
{
    if s.len() == 0 {
        Seq::empty()
    } else if s.len() == 1 {
        value_debug(s[0])
    } else {
        list_debug(s.drop_last()) + ", "@ + value_debug(s[s.len() - 1])
    }
}

/// The text of a map entry: `(key, value)`.
pub open spec fn pair_debug(p: (VModel, VModel)) -> Seq<char>
    decreases p,
{
    "("@ + value_debug(p.0) + ", "@ + value_debug(p.1) + ")"@
}

/// The texts of the entries of a map, with `, ` between them.
pub open spec fn pairs_debug(s: Seq<(VModel, VModel)>) -> Seq<char>
    decreases s,
{
    if s.len() == 0 {
        Seq::empty()
    } else if s.len() == 1 {
        pair_debug(s[0])
    } else {
        pairs_debug(s.drop_last()) + ", "@ + pair_debug(s[s.len() - 1])
    }
}

/// The decimal texts of bytes, with `, ` between them.
pub open spec fn bytes_debug(b: Seq<u8>) -> Seq<char>
    decreases b.len(),
{
    if b.len() == 0 {
        Seq::empty()
    } else if b.len() == 1 {
        dec_int(b[0] as int)
    } else {
        bytes_debug(b.drop_last()) + ", "@ + dec_int(b[b.len() - 1] as int)
    }
}

fn push_bytes_debug(out: &mut String, b: &[u8])
    ensures
        final(out)@ == old(out)@ + bytes_debug(b@),
{
    let ghost start = out@;
    let mut i: usize = 0;
    while i < b.len()
        invariant
            i <= b@.len(),
            out@ == start + bytes_debug(b@.take(i as int)),
        decreases b@.len() - i,
    {
        proof {
            assert(b@.take(i + 1).drop_last() =~= b@.take(i as int));
            assert(b@.take(i + 1)[i as int] == b@[i as int]);
        }
        if i > 0 {
            push_str(out, ", ");
        }
        push_u64(out, b[i] as u64);
        proof {
            if i == 0 {
                assert(b@.take(0) =~= Seq::<u8>::empty());
            }
            assert(out@ =~= start + bytes_debug(b@.take(i + 1)));
        }
        i += 1;
    }
    proof {
        assert(b@.take(i as int) =~= b@);
    }
}

/// Append the text of a data item.
pub fn push_value_debug(out: &mut String, v: &Value)
    ensures
        final(out)@ == old(out)@ + value_debug(v@),
    decreases v,
{
    let ghost start = out@;
    match v {
        Value::Integer(n) => {
            push_str(out, "Integer(");
            push_i128(out, *n);
            push_str(out, ")");
        },
        Value::Bytes(b) => {
            push_str(out, "Bytes([");
            push_bytes_debug(out, b.as_slice());
            push_str(out, "])");
        },
        Value::Float(f) => {
            push_str(out, "Float(");
            push_u64(out, *f);
            push_str(out, ")");
        },
        Value::Text(t) => {
            push_str(out, "Text(");
            let d = debug_quoted(t.as_str());
            push_str(out, d.as_str());
            push_str(out, ")");
        },
        Value::Bool(b) => {
            if *b {
                push_str(out, "Bool(true)");
            } else {
                push_str(out, "Bool(false)");
            }
        },
        Value::Null => {
            push_str(out, "Null");
        },
        Value::Tag(t, inner) => {
            push_str(out, "Tag(");
            push_u64(out, *t);
            push_str(out, ", ");
            push_value_debug(out, inner);
            push_str(out, ")");
        },
        Value::Array(a) => {
            push_str(out, "Array([");
            push_list_debug(out, a);
            push_str(out, "])");
        },
        Value::Mapping(m) => {
            push_str(out, "Mapping([");
            push_pairs_debug(out, m);
            push_str(out, "])");
        },
    }
    assert(out@ =~= start + value_debug(v@));
}

fn push_list_debug(out: &mut String, a: &Vec<Value>)
    ensures
        final(out)@ == old(out)@ + list_debug(model_list(a@)),
    decreases a,
{
    let ghost start = out@;
    let ghost ms = model_list(a@);
    proof {
        lemma_model_list(a@);
    }
    let mut i: usize = 0;
    while i < a.len()
        invariant
            i <= a@.len(),
            ms == model_list(a@),
            ms.len() == a@.len(),
            forall|j: int| 0 <= j < a@.len() ==> #[trigger] ms[j] == a@[j]@,
            out@ == start + list_debug(ms.take(i as int)),
        decreases a@.len() - i,
    {
        proof {
            vstd::std_specs::vec::axiom_vec_index_decreases(*a, i as int);
            assert(ms.take(i + 1).drop_last() =~= ms.take(i as int));
            assert(ms.take(i + 1)[i as int] == a@[i as int]@);
        }
        if i > 0 {
            push_str(out, ", ");
        }
        push_value_debug(out, &a[i]);
        proof {
            if i == 0 {
                assert(ms.take(0) =~= Seq::<VModel>::empty());
            }
            assert(out@ =~= start + list_debug(ms.take(i + 1)));
        }
        i += 1;
    }
    proof {
        assert(ms.take(i as int) =~= ms);
    }
}

fn push_pairs_debug(out: &mut String, m: &Vec<(Value, Value)>)
    ensures
        final(out)@ == old(out)@ + pairs_debug(model_pairs(m@)),
    decreases m,
{
    let ghost start = out@;
    let ghost ps = model_pairs(m@);
    proof {
        lemma_model_pairs(m@);
    }
    let mut i: usize = 0;
    while i < m.len()
        invariant
            i <= m@.len(),
            ps == model_pairs(m@),
            ps.len() == m@.len(),
            forall|j: int| 0 <= j < m@.len() ==> #[trigger] ps[j] == (m@[j].0@, m@[j].1@),
            out@ == start + pairs_debug(ps.take(i as int)),
        decreases m@.len() - i,
    {
        proof {
            vstd::std_specs::vec::axiom_vec_index_decreases(*m, i as int);
            assert(decreases_to!(m[i as int] => m[i as int].0));
            assert(decreases_to!(m[i as int] => m[i as int].1));
            assert(ps.take(i + 1).drop_last() =~= ps.take(i as int));
            assert(ps.take(i + 1)[i as int] == (m@[i as int].0@, m@[i as int].1@));
        }
        let ghost before = out@;
        if i > 0 {
            push_str(out, ", ");
        }
        let ghost mid = out@;
        push_str(out, "(");
        push_value_debug(out, &m[i].0);
        push_str(out, ", ");
        push_value_debug(out, &m[i].1);
        push_str(out, ")");
        proof {
            assert(out@ =~= mid + pair_debug((m@[i as int].0@, m@[i as int].1@)));
            if i == 0 {
                assert(ps.take(0) =~= Seq::<(VModel, VModel)>::empty());
            }
            assert(out@ =~= start + pairs_debug(ps.take(i + 1)));
        }
        i += 1;
    }
    proof {
        assert(ps.take(i as int) =~= ps);
    }
}

} // verus!
