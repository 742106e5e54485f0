//! Commands and their wire encoding: one JSON object per line with the
//! fields `id`, `method` and `params`, in that order, exactly as the
//! bulb expects them.

use vstd::prelude::*;
use vstd::string::*;

use crate::codec::{append_dec_i64, append_dec_u64, append_escaped, dec_digits, dec_digits_signed,
    json_escape};

verus! {

/// One positional parameter of a command: a JSON string or a JSON
/// integer. The integers a command carries (levels, durations, packed
/// colors, signed steps) all fit in `i32`.
#[derive(Clone, Debug)]
pub enum ParamValue {
    Str(String),
    Int(i32),
}

/// Mathematical counterpart of [`ParamValue`].
pub enum ParamData {
    Str(Seq<char>),
    Int(int),
}

impl View for ParamValue {
    type V = ParamData;

    open spec fn view(&self) -> ParamData {
        match self {
            ParamValue::Str(s) => ParamData::Str(s@),
            ParamValue::Int(n) => ParamData::Int(*n as int),
        }
    }
}

/// JSON text of one parameter.
pub open spec fn spec_encode_param(p: ParamData) -> Seq<char> {
    match p {
        ParamData::Str(s) => seq!['"'] + json_escape(s) + seq!['"'],
        ParamData::Int(n) => dec_digits_signed(n),
    }
}

/// Comma-separated JSON texts of a parameter list.
pub open spec fn spec_encode_params(ps: Seq<ParamData>) -> Seq<char>
    decreases ps.len(),
{
    if ps.len() == 0 {
        Seq::empty()
    } else if ps.len() == 1 {
        spec_encode_param(ps[0])
    } else {
        spec_encode_params(ps.drop_last()) + seq![','] + spec_encode_param(ps.last())
    }
}

/// The full wire text of a command, without the CRLF terminator:
/// `{"id":<id>,"method":"<method>","params":[<params>]}`.
pub open spec fn spec_encode_command(id: int, method: Seq<char>, params: Seq<ParamData>) -> Seq<
    char,
> {
    "{\"id\":"@ + dec_digits(id) + ",\"method\":\""@ + json_escape(method) + "\",\"params\":["@
        + spec_encode_params(params) + "]}"@
}

/// A command: correlation id, method name, ordered parameter list.
/// Never mutated after construction.
#[derive(Clone, Debug)]
pub struct Command {
    pub id: u16,
    pub method: String,
    pub params: Vec<ParamValue>,
}

impl Command {
    /// The parameter list as mathematical values.
    pub open spec fn params_view(&self) -> Seq<ParamData> {
        self.params@.map_values(|p: ParamValue| p@)
    }

    /// Serializes the command as its single line of JSON.
    pub fn encode(&self) -> (r: String)
        ensures
            r@ == spec_encode_command(self.id as int, self.method@, self.params_view()),
    {
        let ghost pv = self.params_view();
        let mut out = String::new();
        out.append("{\"id\":");
        append_dec_u64(&mut out, self.id as u64);
        out.append(",\"method\":\"");
        append_escaped(&mut out, self.method.as_str());
        out.append("\",\"params\":[");
        let ghost head = "{\"id\":"@ + dec_digits(self.id as int) + ",\"method\":\""@
            + json_escape(self.method@) + "\",\"params\":["@;
        proof {
            assert(out@ =~= head);
            assert(pv.subrange(0, 0) =~= Seq::<ParamData>::empty());
        }
        let n = self.params.len();
        let mut k: usize = 0;
        while k < n
            invariant
                k <= n,
                n == self.params.len(),
                pv == self.params_view(),
                out@ == head + spec_encode_params(pv.subrange(0, k as int)),
            decreases n - k,
        {
            if k > 0 {
                out.append(",");
                proof {
                    reveal_strlit(",");
                    assert(","@ =~= seq![',']);
                }
            }
            match &self.params[k] {
                ParamValue::Str(s) => {
                    out.append("\"");
                    append_escaped(&mut out, s.as_str());
                    out.append("\"");
                    proof {
                        reveal_strlit("\"");
                        assert("\""@ =~= seq!['"']);
                    }
                },
                ParamValue::Int(v) => {
                    append_dec_i64(&mut out, *v as i64);
                },
            }
            proof {
                let pre = pv.subrange(0, k as int);
                let post = pv.subrange(0, k + 1 as int);
                assert(post.drop_last() =~= pre);
                assert(post.last() == pv[k as int]);
                assert(pv[k as int] == self.params@[k as int]@);
                if k == 0 {
                    assert(out@ =~= head + spec_encode_params(post));
                } else {
                    assert(out@ =~= head + spec_encode_params(post));
                }
            }
            k = k + 1;
        }
        out.append("]}");
        proof {
            assert(pv.subrange(0, n as int) =~= pv);
            assert(out@ =~= spec_encode_command(self.id as int, self.method@, pv));
        }
        out
    }
}

} // verus!
