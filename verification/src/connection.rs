//! The protocol state of one bulb connection and its command surface.
//!
//! A connection owns one byte stream to one bulb. This type holds the
//! protocol half of it: the 16-bit correlation-id counter, the typed
//! encodings of every supported command, and the rule by which lines
//! read back from the stream are matched against the id just sent.
//! The stream itself — connecting, writing the payload, reading lines —
//! is plain I/O and stays with the caller, which hands each received
//! line to [`accept_line`] until one is accepted.

use vstd::prelude::*;
use vstd::string::*;

use crate::codec::{is_line_ws, trim_end_spec, trim_line};
use crate::command::{Command, ParamData, ParamValue, spec_encode_command};
use crate::params::{Brightness, Color, Effect, Percentage, Temperature};
use crate::response::{Response, ResponseData, lemma_parse_of_canonical, parse_response,
    resp_wf, spec_encode_response, spec_parse_response};

verus! {

/// The successor of a correlation id. The counter is 16 bits wide and
/// the protocol leaves its wraparound behaviour undefined; here it
/// wraps, so a connection that lives past 65535 commands reuses ids.
pub open spec fn wrap_inc(id: u16) -> u16 {
    if id == 0xFFFF {
        0
    } else {
        (id + 1) as u16
    }
}

/// One fully encoded exchange-ready command: the payload to write,
/// CRLF included, and the correlation id a response must carry.
#[derive(Clone, Debug)]
pub struct Request {
    pub line: String,
    pub id: u16,
}

/// Protocol state of one connection: the correlation-id counter,
/// incremented once per outgoing command. Ids start at 1 on a fresh
/// connection.
#[derive(Debug)]
pub struct BulbConnection {
    last_command_id: u16,
}

/// The parameter list of a `set_power` command.
pub open spec fn power_params(state: bool, effect: Effect) -> Seq<ParamData> {
    seq![
        ParamData::Str(if state { "on"@ } else { "off"@ }),
        ParamData::Str(effect.spec_effect()),
        ParamData::Int(effect.spec_duration() as int),
    ]
}

/// The parameter list of a `set_bright` command.
pub open spec fn brightness_params(brightness: Brightness, effect: Effect) -> Seq<ParamData> {
    seq![
        ParamData::Int(brightness.0 as int),
        ParamData::Str(effect.spec_effect()),
        ParamData::Int(effect.spec_duration() as int),
    ]
}

/// The parameter list of an `adjust_bright` command.
pub open spec fn adjust_params(percentage: Percentage, duration: u16) -> Seq<ParamData> {
    seq![ParamData::Int(percentage.0 as int), ParamData::Int(duration as int)]
}

/// The parameter list of a `set_ct_abx` command.
pub open spec fn temperature_params(temperature: Temperature, effect: Effect) -> Seq<ParamData> {
    seq![
        ParamData::Int(temperature.0 as int),
        ParamData::Str(effect.spec_effect()),
        ParamData::Int(effect.spec_duration() as int),
    ]
}

/// The parameter list of a `set_rgb` command.
pub open spec fn color_params(color: Color, effect: Effect) -> Seq<ParamData> {
    seq![
        ParamData::Int(color.0 as int),
        ParamData::Str(effect.spec_effect()),
        ParamData::Int(effect.spec_duration() as int),
    ]
}

/// The parameter list of a `get_prop` command: the property names
/// themselves, in the caller's order.
pub open spec fn props_params(props: Seq<Seq<char>>) -> Seq<ParamData> {
    props.map_values(|p: Seq<char>| ParamData::Str(p))
}

/// The full payload a request for `method` with `params` carries on a
/// connection whose counter held `last` beforehand.
pub open spec fn request_payload(last: u16, method: Seq<char>, params: Seq<ParamData>) -> Seq<
    char,
> {
    spec_encode_command(wrap_inc(last) as int, method, params) + "\r\n"@
}

impl BulbConnection {
    /// The id of the last command sent; the next command takes its
    /// successor.
    pub closed spec fn last_id(self) -> u16 {
        self.last_command_id
    }

    /// A fresh connection: no command sent yet, so the first command
    /// gets id 1.
    pub fn new() -> (r: Self)
        ensures
            r.last_id() == 0,
    {
        BulbConnection { last_command_id: 0 }
    }

    /// Assigns the next correlation id and assembles the command.
    fn new_command(&mut self, method: &str, params: Vec<ParamValue>) -> (c: Command)
        ensures
            final(self).last_id() == wrap_inc(old(self).last_id()),
            c.id == final(self).last_id(),
            c.method@ == method@,
            c.params == params,
    {
        if self.last_command_id == 0xFFFF {
            self.last_command_id = 0;
        } else {
            self.last_command_id = self.last_command_id + 1;
        }
        Command { id: self.last_command_id, method: method.to_owned(), params }
    }

    /// Builds the wire payload of one command: assigns the next
    /// correlation id and serializes the command, CRLF appended. The
    /// caller writes `line` to the stream in one operation and then
    /// reads lines until [`BulbConnection::accept_line`] accepts one.
    pub fn request_line(&mut self, method: &str, params: Vec<ParamValue>) -> (r: Request)
        ensures
            final(self).last_id() == wrap_inc(old(self).last_id()),
            r.id == final(self).last_id(),
            r.line@ == request_payload(
                old(self).last_id(),
                method@,
                params@.map_values(|p: ParamValue| p@),
            ),
    {
        let ghost pv = params@.map_values(|p: ParamValue| p@);
        let command = self.new_command(method, params);
        let mut line = command.encode();
        line.append("\r\n");
        proof {
            assert(command.params_view() =~= pv);
        }
        Request { line, id: self.last_command_id }
    }

    /// Encodes a `set_power` command: `["on"|"off", effect, duration]`.
    pub fn set_power(&mut self, state: bool, effect: Effect) -> (r: Request)
        ensures
            final(self).last_id() == wrap_inc(old(self).last_id()),
            r.id == final(self).last_id(),
            r.line@ == request_payload(old(self).last_id(), "set_power"@, power_params(
                state,
                effect,
            )),
    {
        let mut params: Vec<ParamValue> = Vec::new();
        params.push(ParamValue::Str((if state {
            "on"
        } else {
            "off"
        }).to_owned()));
        params.push(ParamValue::Str(effect.effect().to_owned()));
        params.push(ParamValue::Int(effect.duration() as i32));
        proof {
            assert(params@.map_values(|p: ParamValue| p@) =~= power_params(state, effect));
        }
        self.request_line("set_power", params)
    }

    /// Encodes a `set_bright` command: `[level, effect, duration]`.
    pub fn set_brightness(&mut self, brightness: Brightness, effect: Effect) -> (r: Request)
        ensures
            final(self).last_id() == wrap_inc(old(self).last_id()),
            r.id == final(self).last_id(),
            r.line@ == request_payload(old(self).last_id(), "set_bright"@, brightness_params(
                brightness,
                effect,
            )),
    {
        let mut params: Vec<ParamValue> = Vec::new();
        params.push(ParamValue::Int(brightness.0 as i32));
        params.push(ParamValue::Str(effect.effect().to_owned()));
        params.push(ParamValue::Int(effect.duration() as i32));
        proof {
            assert(params@.map_values(|p: ParamValue| p@) =~= brightness_params(
                brightness,
                effect,
            ));
        }
        self.request_line("set_bright", params)
    }

    /// Encodes an `adjust_bright` command: `[delta, duration]`.
    pub fn adjust_brightness(&mut self, percentage: Percentage, duration: u16) -> (r: Request)
        ensures
            final(self).last_id() == wrap_inc(old(self).last_id()),
            r.id == final(self).last_id(),
            r.line@ == request_payload(old(self).last_id(), "adjust_bright"@, adjust_params(
                percentage,
                duration,
            )),
    {
        let mut params: Vec<ParamValue> = Vec::new();
        params.push(ParamValue::Int(percentage.0 as i32));
        params.push(ParamValue::Int(duration as i32));
        proof {
            assert(params@.map_values(|p: ParamValue| p@) =~= adjust_params(
                percentage,
                duration,
            ));
        }
        self.request_line("adjust_bright", params)
    }

    /// Encodes a `set_ct_abx` command: `[kelvin, effect, duration]`.
    pub fn set_temperature(&mut self, temperature: Temperature, effect: Effect) -> (r: Request)
        ensures
            final(self).last_id() == wrap_inc(old(self).last_id()),
            r.id == final(self).last_id(),
            r.line@ == request_payload(old(self).last_id(), "set_ct_abx"@, temperature_params(
                temperature,
                effect,
            )),
    {
        let mut params: Vec<ParamValue> = Vec::new();
        params.push(ParamValue::Int(temperature.0 as i32));
        params.push(ParamValue::Str(effect.effect().to_owned()));
        params.push(ParamValue::Int(effect.duration() as i32));
        proof {
            assert(params@.map_values(|p: ParamValue| p@) =~= temperature_params(
                temperature,
                effect,
            ));
        }
        self.request_line("set_ct_abx", params)
    }

    /// Encodes a `set_rgb` command: `[0xRRGGBB, effect, duration]`.
    /// A color is a 24-bit value, as [`crate::params::Color::from_hex`]
    /// guarantees.
    pub fn set_color(&mut self, color: Color, effect: Effect) -> (r: Request)
        requires
            color.0 <= 0xFFFFFF,
        ensures
            final(self).last_id() == wrap_inc(old(self).last_id()),
            r.id == final(self).last_id(),
            r.line@ == request_payload(old(self).last_id(), "set_rgb"@, color_params(
                color,
                effect,
            )),
    {
        let mut params: Vec<ParamValue> = Vec::new();
        params.push(ParamValue::Int(color.0 as i32));
        params.push(ParamValue::Str(effect.effect().to_owned()));
        params.push(ParamValue::Int(effect.duration() as i32));
        proof {
            assert(params@.map_values(|p: ParamValue| p@) =~= color_params(color, effect));
        }
        self.request_line("set_rgb", params)
    }

    /// Encodes a `get_prop` command: the property names stand as the
    /// parameters, in the caller's order.
    pub fn get_props(&mut self, props: &Vec<String>) -> (r: Request)
        ensures
            final(self).last_id() == wrap_inc(old(self).last_id()),
            r.id == final(self).last_id(),
            r.line@ == request_payload(old(self).last_id(), "get_prop"@, props_params(
                props.deep_view(),
            )),
    {
        let mut params: Vec<ParamValue> = Vec::new();
        let n = props.len();
        let mut k: usize = 0;
        while k < n
            invariant
                k <= n,
                n == props@.len(),
                params@.len() == k,
                params@.map_values(|p: ParamValue| p@) =~~= props_params(
                    props.deep_view().subrange(0, k as int),
                ),
            decreases n - k,
        {
            let ghost pre = params@;
            let ghost ps = props.deep_view();
            params.push(ParamValue::Str(props[k].clone()));
            proof {
                let lhs = params@.map_values(|p: ParamValue| p@);
                let rhs = props_params(ps.subrange(0, k + 1 as int));
                let prem = pre.map_values(|p: ParamValue| p@);
                let prer = props_params(ps.subrange(0, k as int));
                assert forall|j: int| 0 <= j < lhs.len() implies lhs[j] == rhs[j] by {
                    assert(lhs[j] == params@[j]@);
                    assert(rhs[j] == ParamData::Str(ps.subrange(0, k + 1 as int)[j]));
                    if j < k {
                        assert(params@[j] == pre[j]);
                        assert(prem[j] == prer[j]);
                        assert(prem[j] == pre[j]@);
                        assert(prer[j] == ParamData::Str(ps.subrange(0, k as int)[j]));
                    }
                }
                assert(lhs.len() == rhs.len());
                assert(lhs =~~= rhs);
            }
            k = k + 1;
        }
        proof {
            assert(props.deep_view().subrange(0, n as int) =~= props.deep_view());
        }
        self.request_line("get_prop", params)
    }
}

/// What one received line yields for the command with id `id`: the
/// decoded response when the line decodes and its id matches, nothing
/// otherwise — a malformed or foreign line, and a well-formed response
/// carrying any other id, are both discarded.
pub open spec fn spec_accept(id: u16, line: Seq<char>) -> Option<ResponseData> {
    match spec_parse_response(trim_end_spec(line)) {
        Option::None => Option::None,
        Option::Some(r) => if r.id == id as int {
            Option::Some(r)
        } else {
            Option::None
        },
    }
}

/// Decides one received line: strips the line terminator, decodes,
/// and accepts the response only when its id is the one just sent.
pub fn accept_line(id: u16, line: &str) -> (r: Option<Response>)
    ensures
        match r {
            Option::Some(resp) => spec_accept(id, line@) == Option::Some(resp@),
            Option::None => spec_accept(id, line@) is None,
        },
{
    let t = trim_line(line);
    match parse_response(t) {
        None => None,
        Some(resp) => if resp.id == id {
            Some(resp)
        } else {
            None
        },
    }
}

/// The read loop over a sequence of received lines: the first line
/// that [`spec_accept`] takes, with its position.
pub open spec fn spec_correlate(id: u16, lines: Seq<Seq<char>>) -> Option<(int, ResponseData)>
    decreases lines.len(),
{
    if lines.len() == 0 {
        Option::None
    } else {
        match spec_accept(id, lines[0]) {
            Option::Some(r) => Option::Some((0, r)),
            Option::None => match spec_correlate(id, lines.drop_first()) {
                Option::None => Option::None,
                Option::Some((k, r)) => Option::Some((k + 1, r)),
            },
        }
    }
}

/// Runs the correlation rule over a batch of received lines: returns
/// the first correctly correlated response and its position. Every
/// earlier line is one the connection discards — malformed, foreign,
/// or carrying a mismatched id — and is never handed back.
pub fn correlate(id: u16, lines: &Vec<String>) -> (r: Option<(usize, Response)>)
    ensures
        match r {
            Option::Some(p) => {
                &&& p.0 < lines@.len()
                &&& spec_accept(id, lines@[p.0 as int]@) == Option::Some(p.1@)
                &&& forall|j: int| 0 <= j < p.0 ==> spec_accept(id, lines@[j]@) is None
                &&& spec_correlate(id, lines.deep_view()) == Option::Some((p.0 as int, p.1@))
            },
            Option::None => {
                &&& forall|j: int| 0 <= j < lines@.len() ==> spec_accept(id, lines@[j]@) is None
                &&& spec_correlate(id, lines.deep_view()) is None
            },
        },
{
    let n = lines.len();
    let mut k: usize = 0;
    while k < n
        invariant
            k <= n,
            n == lines@.len(),
            forall|j: int| 0 <= j < k ==> spec_accept(id, lines@[j]@) is None,
        decreases n - k,
    {
        match accept_line(id, lines[k].as_str()) {
            Some(resp) => {
                proof {
                    let dv = lines.deep_view();
                    assert(forall|j: int| 0 <= j < dv.len() ==> #[trigger] dv[j] == lines@[j]@);
                    lemma_first_match_returned(id, dv, k as int);
                }
                return Some((k, resp));
            },
            None => {},
        }
        k = k + 1;
    }
    proof {
        let dv = lines.deep_view();
        assert(forall|j: int| 0 <= j < dv.len() ==> #[trigger] dv[j] == lines@[j]@);
        lemma_correlate_no_match(id, dv);
    }
    None
}

/// Without any correlated line the read rule never reports one.
proof fn lemma_correlate_no_match(id: u16, lines: Seq<Seq<char>>)
    requires
        forall|j: int| 0 <= j < lines.len() ==> spec_accept(id, #[trigger] lines[j]) is None,
    ensures
        spec_correlate(id, lines) is None,
    decreases lines.len(),
{
    if lines.len() > 0 {
        let rest = lines.drop_first();
        assert(forall|j: int| 0 <= j < rest.len() ==> #[trigger] rest[j] == lines[j + 1]);
        lemma_correlate_no_match(id, rest);
    }
}

/// The position [`spec_correlate`] reports is exactly the first line
/// [`spec_accept`] takes: every stray line before it — unparsable, or
/// a response under a mismatched id — is passed over, and the
/// correctly correlated response is the one returned.
pub proof fn lemma_first_match_returned(id: u16, lines: Seq<Seq<char>>, m: int)
    requires
        0 <= m < lines.len(),
        forall|j: int| 0 <= j < m ==> spec_accept(id, #[trigger] lines[j]) is None,
        spec_accept(id, lines[m]) is Some,
    ensures
        spec_correlate(id, lines) == Option::Some((m, spec_accept(id, lines[m])->Some_0)),
    decreases m,
{
    if m == 0 {
    } else {
        assert(spec_accept(id, lines[0]) is None);
        lemma_first_match_returned(id, lines.drop_first(), m - 1);
        assert(lines.drop_first()[m - 1] == lines[m]);
    }
}

/// A response whose id is not the one just sent is never accepted,
/// however early it arrives.
pub proof fn lemma_mismatched_id_discarded(id: u16, line: Seq<char>)
    requires
        spec_parse_response(trim_end_spec(line)) is Some,
        spec_parse_response(trim_end_spec(line))->Some_0.id != id as int,
    ensures
        spec_accept(id, line) is None,
{
}

/// A canonical response line arriving on the stream, CRLF terminator
/// included, is accepted whenever its id is the one just sent, and
/// decodes to exactly the response it carries: the read loop cannot
/// miss or distort the correlated answer.
pub proof fn lemma_correlated_line_accepted(id: u16, r: ResponseData)
    requires
        resp_wf(r),
        r.id == id as int,
    ensures
        spec_accept(id, spec_encode_response(r) + "\r\n"@) == Option::Some(r),
{
    reveal_strlit("\r\n");
    lemma_parse_of_canonical(r);
    let s = spec_encode_response(r);
    let line = s + "\r\n"@;
    assert(s.len() >= 1);
    assert(s[s.len() - 1] == '}');
    assert(line.last() == '\n');
    assert(is_line_ws('\n'));
    assert(line.drop_last() =~= s + seq!['\r']);
    assert((s + seq!['\r']).last() == '\r');
    assert(is_line_ws('\r'));
    assert((s + seq!['\r']).drop_last() =~= s);
    assert(!is_line_ws('}'));
    assert(trim_end_spec(line) == trim_end_spec(line.drop_last()));
    assert(trim_end_spec(line.drop_last()) == trim_end_spec(s + seq!['\r']));
    assert(trim_end_spec(s + seq!['\r']) == trim_end_spec((s + seq!['\r']).drop_last()));
    assert(trim_end_spec((s + seq!['\r']).drop_last()) == trim_end_spec(s));
    assert(trim_end_spec(s) == s);
}

/// The values of a response that carries a result list, in the order
/// the bulb sent them — for `get_prop`, the order of the requested
/// property names. The caller checks that a result is present before
/// converting.
pub fn result_values(resp: &Response) -> (r: Vec<String>)
    requires
        resp.result is Some,
    ensures
        r.deep_view() == resp@.result->Some_0,
{
    let values = match &resp.result {
        Some(v) => v,
        None => {
            proof {
                assert(false);
            }
            return Vec::new();
        },
    };
    let n = values.len();
    let mut out: Vec<String> = Vec::new();
    let mut k: usize = 0;
    while k < n
        invariant
            k <= n,
            n == values@.len(),
            resp.result == Some(*values),
            out@.len() == k,
            out.deep_view() =~~= values.deep_view().subrange(0, k as int),
        decreases n - k,
    {
        out.push(values[k].clone());
        proof {
            assert(out.deep_view() =~~= values.deep_view().subrange(0, k + 1 as int));
        }
        k = k + 1;
    }
    proof {
        assert(values.deep_view().subrange(0, n as int) =~= values.deep_view());
    }
    out
}

/// Pairs requested property names with the returned values, keyed in
/// the caller's input order; duplicate names are kept, not
/// de-duplicated.
pub fn pair_props(props: &Vec<String>, values: &Vec<String>) -> (r: Vec<(String, String)>)
    requires
        props@.len() == values@.len(),
    ensures
        r@.len() == props@.len(),
        forall|k: int|
            0 <= k < r@.len() ==> (#[trigger] r@[k]).0@ == props@[k]@ && r@[k].1@ == values@[k]@,
{
    let n = props.len();
    let mut out: Vec<(String, String)> = Vec::new();
    let mut k: usize = 0;
    while k < n
        invariant
            k <= n,
            n == props@.len(),
            n == values@.len(),
            out@.len() == k,
            forall|j: int|
                0 <= j < k ==> (#[trigger] out@[j]).0@ == props@[j]@ && out@[j].1@ == values@[j]@,
        decreases n - k,
    {
        out.push((props[k].clone(), values[k].clone()));
        k = k + 1;
    }
    out
}

} // verus!
