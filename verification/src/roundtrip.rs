//! The codec's round trip: encoding a request and decoding the same bytes
//! gives the request back, method, parameters, id and version tag alike.
//!
//! The proof walks the decoder's own spec functions over the encoder's
//! output: the member scan finds exactly the encoded members, each value
//! scan stops exactly at its value's end, the strict string parse undoes
//! the escaping, and the digit parse undoes the decimal rendering.

use vstd::prelude::*;

verus! {

use vstd::string::{is_ascii, StringSliceAdditionalSpecFns};
use crate::envelope::{enc_envelope, enc_fields_from, enc_member, enc_objects_from, enc_params,
    enc_string, enc_subscribe_value, method_from_name_spec, method_name_spec, ParamV};
use crate::methods::MoonrakerMethod;
use crate::json::{esc, lemma_parse_esc, lemma_skip_esc, parse_str_body, parse_string_spec,
    skip_str_body};

/// The five envelope keys are five different strings.
pub proof fn lemma_envelope_keys_distinct()
    ensures
        "jsonrpc".spec_bytes().len() == 7,
        "result".spec_bytes().len() == 6,
        "method".spec_bytes().len() == 6,
        "params".spec_bytes().len() == 6,
        "id".spec_bytes().len() == 2,
        "jsonrpc".spec_bytes() != "result".spec_bytes(),
        "jsonrpc".spec_bytes() != "method".spec_bytes(),
        "jsonrpc".spec_bytes() != "params".spec_bytes(),
        "jsonrpc".spec_bytes() != "id".spec_bytes(),
        "result".spec_bytes() != "method".spec_bytes(),
        "result".spec_bytes() != "params".spec_bytes(),
        "result".spec_bytes() != "id".spec_bytes(),
        "method".spec_bytes() != "params".spec_bytes(),
        "method".spec_bytes() != "id".spec_bytes(),
        "params".spec_bytes() != "id".spec_bytes(),
{
    reveal_strlit("jsonrpc");
    reveal_strlit("result");
    reveal_strlit("method");
    reveal_strlit("params");
    reveal_strlit("id");
    assert(is_ascii("jsonrpc") && is_ascii("result") && is_ascii("method") && is_ascii("params")
        && is_ascii("id"));
    vstd::string::is_ascii_spec_bytes("jsonrpc");
    vstd::string::is_ascii_spec_bytes("result");
    vstd::string::is_ascii_spec_bytes("method");
    vstd::string::is_ascii_spec_bytes("params");
    vstd::string::is_ascii_spec_bytes("id");
    assert("result".spec_bytes()[0] == 0x72);
    assert("method".spec_bytes()[0] == 0x6d);
    assert("params".spec_bytes()[0] == 0x70);
}

/// The three parameter keys are three different strings.
pub proof fn lemma_param_keys_distinct()
    ensures
        "script".spec_bytes().len() == 6,
        "filename".spec_bytes().len() == 8,
        "objects".spec_bytes().len() == 7,
        "script".spec_bytes() != "filename".spec_bytes(),
        "script".spec_bytes() != "objects".spec_bytes(),
        "filename".spec_bytes() != "objects".spec_bytes(),
{
    reveal_strlit("script");
    reveal_strlit("filename");
    reveal_strlit("objects");
    assert(is_ascii("script") && is_ascii("filename") && is_ascii("objects"));
    vstd::string::is_ascii_spec_bytes("script");
    vstd::string::is_ascii_spec_bytes("filename");
    vstd::string::is_ascii_spec_bytes("objects");
}

/// Looking a method's wire name back up finds that method: the thirteen
/// names are pairwise distinct, so the name table inverts itself.
pub proof fn lemma_method_name_roundtrip(m: MoonrakerMethod)
    ensures
        method_from_name_spec(method_name_spec(m)) == Some(m),
{
    reveal_strlit("notify_proc_stat_update");
    reveal_strlit("notify_status_update");
    reveal_strlit("notify_klippy_ready");
    reveal_strlit("printer.objects.subscribe");
    reveal_strlit("server.files.metadata");
    reveal_strlit("printer.print.pause");
    reveal_strlit("printer.print.resume");
    reveal_strlit("printer.print.cancel");
    reveal_strlit("printer.firmware_restart");
    reveal_strlit("printer.restart");
    reveal_strlit("printer.emergency_stop");
    reveal_strlit("printer.gcode.script");
    reveal_strlit("printer.objects.list");
    assert(is_ascii("notify_proc_stat_update"));
    assert(is_ascii("notify_status_update"));
    assert(is_ascii("notify_klippy_ready"));
    assert(is_ascii("printer.objects.subscribe"));
    assert(is_ascii("server.files.metadata"));
    assert(is_ascii("printer.print.pause"));
    assert(is_ascii("printer.print.resume"));
    assert(is_ascii("printer.print.cancel"));
    assert(is_ascii("printer.firmware_restart"));
    assert(is_ascii("printer.restart"));
    assert(is_ascii("printer.emergency_stop"));
    assert(is_ascii("printer.gcode.script"));
    assert(is_ascii("printer.objects.list"));
    vstd::string::is_ascii_spec_bytes("notify_proc_stat_update");
    vstd::string::is_ascii_spec_bytes("notify_status_update");
    vstd::string::is_ascii_spec_bytes("notify_klippy_ready");
    vstd::string::is_ascii_spec_bytes("printer.objects.subscribe");
    vstd::string::is_ascii_spec_bytes("server.files.metadata");
    vstd::string::is_ascii_spec_bytes("printer.print.pause");
    vstd::string::is_ascii_spec_bytes("printer.print.resume");
    vstd::string::is_ascii_spec_bytes("printer.print.cancel");
    vstd::string::is_ascii_spec_bytes("printer.firmware_restart");
    vstd::string::is_ascii_spec_bytes("printer.restart");
    vstd::string::is_ascii_spec_bytes("printer.emergency_stop");
    vstd::string::is_ascii_spec_bytes("printer.gcode.script");
    vstd::string::is_ascii_spec_bytes("printer.objects.list");
    assert("notify_proc_stat_update".spec_bytes().len() == 23);
    assert("notify_status_update".spec_bytes().len() == 20);
    assert("notify_klippy_ready".spec_bytes().len() == 19);
    assert("printer.objects.subscribe".spec_bytes().len() == 25);
    assert("server.files.metadata".spec_bytes().len() == 21);
    assert("printer.print.pause".spec_bytes().len() == 19);
    assert("printer.print.resume".spec_bytes().len() == 20);
    assert("printer.print.cancel".spec_bytes().len() == 20);
    assert("printer.firmware_restart".spec_bytes().len() == 24);
    assert("printer.restart".spec_bytes().len() == 15);
    assert("printer.emergency_stop".spec_bytes().len() == 22);
    assert("printer.gcode.script".spec_bytes().len() == 20);
    assert("printer.objects.list".spec_bytes().len() == 20);
    assert("notify_klippy_ready".spec_bytes()[0] == 0x6e);
    assert("notify_status_update".spec_bytes()[0] == 0x6e);
    assert("printer.print.pause".spec_bytes()[0] == 0x70);
    assert("printer.print.resume".spec_bytes()[0] == 0x70);
    assert("printer.print.resume".spec_bytes()[8] == 0x70);
    assert("printer.print.resume".spec_bytes()[14] == 0x72);
    assert("printer.print.cancel".spec_bytes()[0] == 0x70);
    assert("printer.print.cancel".spec_bytes()[8] == 0x70);
    assert("printer.print.cancel".spec_bytes()[14] == 0x63);
    assert("printer.gcode.script".spec_bytes()[0] == 0x70);
    assert("printer.gcode.script".spec_bytes()[8] == 0x67);
    assert("printer.objects.list".spec_bytes()[0] == 0x70);
    assert("printer.objects.list".spec_bytes()[8] == 0x6f);
}

/// The strict parse of an encoded string recovers the string and stops at
/// its end.
pub proof fn lemma_parse_enc_string(s: Seq<u8>, i: int, x: Seq<u8>)
    requires
        0 <= i,
        i + enc_string(x).len() <= s.len(),
        s.subrange(i, i + enc_string(x).len()) == enc_string(x),
    ensures
        parse_string_spec(s, i) == Some((x, i + enc_string(x).len())),
{
    let e = enc_string(x);
    let n = esc(x).len() as int;
    let l = e.len() as int;
    assert(l == n + 2);
    assert(s.subrange(i, i + l)[0] == e[0]);
    assert(e[0] == 0x22) by {
        assert((seq![0x22u8] + esc(x))[0] == 0x22);
        assert(((seq![0x22u8] + esc(x)) + seq![0x22u8])[0] == (seq![0x22u8] + esc(x))[0]);
    }
    assert(s[i] == 0x22);
    assert forall|k: int| 0 <= k < n implies s[i + 1 + k] == esc(x)[k] by {
        assert(s.subrange(i, i + l)[1 + k] == e[1 + k]);
        assert((seq![0x22u8] + esc(x))[1 + k] == esc(x)[k]);
        assert(((seq![0x22u8] + esc(x)) + seq![0x22u8])[1 + k] == (seq![0x22u8] + esc(x))[1 + k]);
    }
    assert(s.subrange(i + 1, i + 1 + n) =~= esc(x));
    assert(s.subrange(i, i + l)[l - 1] == e[l - 1]);
    assert(e[l - 1] == 0x22);
    assert(s[i + 1 + n] == 0x22);
    lemma_parse_esc(s, i + 1, x, Seq::empty());
    assert(Seq::empty() + x =~= x);
}

/// The lenient scan of an encoded string stops at its end.
pub proof fn lemma_skip_enc_string(s: Seq<u8>, i: int, x: Seq<u8>, fuel: nat)
    requires
        fuel >= 1,
        0 <= i,
        i + enc_string(x).len() <= s.len(),
        s.subrange(i, i + enc_string(x).len()) == enc_string(x),
    ensures
        crate::json::skip_value(s, i, fuel) == Some(i + enc_string(x).len()),
{
    let e = enc_string(x);
    let n = esc(x).len() as int;
    let l = e.len() as int;
    assert(l == n + 2);
    assert(s.subrange(i, i + l)[0] == e[0]);
    assert(e[0] == 0x22) by {
        assert((seq![0x22u8] + esc(x))[0] == 0x22);
        assert(((seq![0x22u8] + esc(x)) + seq![0x22u8])[0] == (seq![0x22u8] + esc(x))[0]);
    }
    assert(s[i] == 0x22);
    assert forall|k: int| 0 <= k < n implies s[i + 1 + k] == esc(x)[k] by {
        assert(s.subrange(i, i + l)[1 + k] == e[1 + k]);
        assert((seq![0x22u8] + esc(x))[1 + k] == esc(x)[k]);
        assert(((seq![0x22u8] + esc(x)) + seq![0x22u8])[1 + k] == (seq![0x22u8] + esc(x))[1 + k]);
    }
    assert(s.subrange(i + 1, i + 1 + n) =~= esc(x));
    assert(s.subrange(i, i + l)[l - 1] == e[l - 1]);
    assert(e[l - 1] == 0x22);
    assert(s[i + 1 + n] == 0x22);
    lemma_skip_esc(s, i + 1, x);
}

/// The value scan over a rendered number stops right after its digits.
pub proof fn lemma_skip_dec(s: Seq<u8>, i: int, n: u16, fuel: nat)
    requires
        fuel >= 1,
        0 <= i,
        i + crate::utils::dec_u64(n as u64).len() < s.len(),
        s.subrange(i, i + crate::utils::dec_u64(n as u64).len()) == crate::utils::dec_u64(
            n as u64,
        ),
        !crate::json::is_num_byte(s[i + crate::utils::dec_u64(n as u64).len()]),
    ensures
        crate::json::skip_value(s, i, fuel) == Some(i + crate::utils::dec_u64(n as u64).len()),
{
    let d = crate::utils::dec_u64(n as u64);
    let j = i + d.len() as int;
    assert forall|k: int| i <= k < j implies crate::json::is_num_byte(#[trigger] s[k]) by {
        crate::json::lemma_dec_all_digits(n as u64, k - i);
        assert(s.subrange(i, j)[k - i] == d[k - i]);
    }
    assert(s.subrange(i, j)[0] == d[0]);
    crate::json::lemma_dec_all_digits(n as u64, 0);
    assert(crate::json::is_digit(s[i]));
    crate::json::lemma_scan_num_run(s, i, j);
}

/// Splitting a known range of `s` at a concatenation boundary.
pub proof fn lemma_sub_split(s: Seq<u8>, i: int, a: Seq<u8>, b: Seq<u8>)
    requires
        0 <= i,
        i + a.len() + b.len() <= s.len(),
        s.subrange(i, i + a.len() + b.len()) == a + b,
    ensures
        s.subrange(i, i + a.len()) == a,
        s.subrange(i + a.len(), i + a.len() + b.len()) == b,
{
    assert forall|k: int| 0 <= k < a.len() implies s.subrange(i, i + a.len() as int)[k] == a[k] by {
        assert(s.subrange(i, i + a.len() + b.len())[k] == (a + b)[k]);
    }
    assert(s.subrange(i, i + a.len()) =~= a);
    assert forall|k: int| 0 <= k < b.len() implies s.subrange(
        i + a.len(),
        i + a.len() + b.len(),
    )[k] == b[k] by {
        assert(s.subrange(i, i + a.len() + b.len())[a.len() + k] == (a + b)[a.len() + k]);
        assert((a + b)[a.len() + k] == b[k]);
        assert(s.subrange(i + a.len(), i + a.len() + b.len())[k] == s[i + a.len() + k]);
    }
    assert(s.subrange(i + a.len(), i + a.len() + b.len()) =~= b);
}

/// The one byte of a known singleton range.
pub proof fn lemma_sub_byte(s: Seq<u8>, i: int, b: u8)
    requires
        0 <= i,
        i + 1 <= s.len(),
        s.subrange(i, i + 1) == seq![b],
    ensures
        s[i] == b,
{
    assert(s.subrange(i, i + 1)[0] == b);
}

/// Whitespace skipping does not move off a non-whitespace byte.
pub proof fn lemma_no_ws(s: Seq<u8>, i: int)
    requires
        0 <= i < s.len(),
        !crate::json::is_ws(s[i]),
    ensures
        crate::json::skip_ws_spec(s, i) == i,
{
}

/// Scanning an encoded string from its opening quote stops at its end.
pub proof fn lemma_skip_str_at(s: Seq<u8>, i: int, x: Seq<u8>)
    requires
        0 <= i,
        i + enc_string(x).len() <= s.len(),
        s.subrange(i, i + enc_string(x).len()) == enc_string(x),
    ensures
        s[i] == 0x22,
        skip_str_body(s, i + 1) == Some(i + enc_string(x).len()),
{
    let n = esc(x).len() as int;
    lemma_sub_split(s, i, seq![0x22u8] + esc(x), seq![0x22u8]);
    lemma_sub_split(s, i, seq![0x22u8], esc(x));
    lemma_sub_byte(s, i, 0x22);
    lemma_sub_byte(s, i + 1 + n, 0x22);
    lemma_skip_esc(s, i + 1, x);
}

/// The strict parse, from the same layout.
pub proof fn lemma_parse_str_at(s: Seq<u8>, i: int, x: Seq<u8>)
    requires
        0 <= i,
        i + enc_string(x).len() <= s.len(),
        s.subrange(i, i + enc_string(x).len()) == enc_string(x),
    ensures
        parse_string_spec(s, i) == Some((x, i + enc_string(x).len())),
{
    lemma_parse_enc_string(s, i, x);
}

/// Every encoded string takes at least its two quotes.
pub proof fn lemma_enc_string_len(x: Seq<u8>)
    ensures
        enc_string(x).len() >= 2,
{
}

/// Scanning a comma-joined field list from its first string consumes it
/// together with the closing bracket.
pub proof fn lemma_skip_fields(s: Seq<u8>, i: int, fs: Seq<Seq<u8>>, k: int, fuel: nat)
    requires
        0 <= k < fs.len(),
        0 <= i,
        i + enc_fields_from(fs, k).len() + 1 <= s.len(),
        s.subrange(i, i + enc_fields_from(fs, k).len()) == enc_fields_from(fs, k),
        s[i + enc_fields_from(fs, k).len()] == 0x5d,
        fuel >= fs.len() - k + 2,
    ensures
        crate::json::skip_elements(s, i, fuel) == Some(i + enc_fields_from(fs, k).len() + 1),
    decreases fs.len() - k,
{
    let e = enc_fields_from(fs, k);
    let es = enc_string(fs[k]);
    if k == fs.len() - 1 {
        assert(e == es);
        lemma_skip_str_at(s, i, fs[k]);
        assert(crate::json::skip_value(s, i, (fuel - 1) as nat) == Some(i + es.len() as int));
        lemma_no_ws(s, i + es.len());
    } else {
        assert(e == es + seq![0x2cu8] + enc_fields_from(fs, k + 1));
        lemma_sub_split(s, i, es + seq![0x2cu8], enc_fields_from(fs, k + 1));
        lemma_sub_split(s, i, es, seq![0x2cu8]);
        lemma_skip_str_at(s, i, fs[k]);
        assert(crate::json::skip_value(s, i, (fuel - 1) as nat) == Some(i + es.len() as int));
        lemma_sub_byte(s, i + es.len(), 0x2c);
        lemma_no_ws(s, i + es.len());
        let i2 = i + es.len() + 1;
        assert(s.subrange(i2, i2 + enc_fields_from(fs, k + 1).len()) == enc_fields_from(
            fs,
            k + 1,
        ));
        let e2 = enc_fields_from(fs, k + 1);
        let es2 = enc_string(fs[k + 1]);
        assert(e2[0] == 0x22) by {
            assert(es2[0] == 0x22) by {
                assert(((seq![0x22u8] + esc(fs[k + 1])) + seq![0x22u8])[0] == (seq![0x22u8]
                    + esc(fs[k + 1]))[0]);
                assert((seq![0x22u8] + esc(fs[k + 1]))[0] == 0x22);
            }
            if k + 1 < fs.len() - 1 {
                assert(e2 == es2 + seq![0x2cu8] + enc_fields_from(fs, k + 2));
                assert(((es2 + seq![0x2cu8]) + enc_fields_from(fs, k + 2))[0] == (es2
                    + seq![0x2cu8])[0]);
                assert((es2 + seq![0x2cu8])[0] == es2[0]);
            }
        }
        assert(s[i2] == e2[0]) by {
            assert(s.subrange(i2, i2 + e2.len())[0] == e2[0]);
        }
        assert(!crate::json::is_ws(s[i2]));
        lemma_no_ws(s, i2);
        lemma_skip_fields(s, i2, fs, k + 1, (fuel - 1) as nat);
    }
}

proof fn lemma_enc_fields_len(fs: Seq<Seq<u8>>, k: int)
    requires
        0 <= k <= fs.len(),
    ensures
        enc_fields_from(fs, k).len() >= 2 * (fs.len() - k),
    decreases fs.len() - k,
{
    if k < fs.len() {
        lemma_enc_fields_len(fs, k + 1);
    }
}

proof fn lemma_enc_objects_len(objs: Seq<(Seq<u8>, Option<Seq<Seq<u8>>>)>, k: int)
    requires
        0 <= k <= objs.len(),
    ensures
        enc_objects_from(objs, k).len() >= objs.len() - k,
    decreases objs.len() - k,
{
    if k < objs.len() {
        lemma_enc_objects_len(objs, k + 1);
    }
}

/// The scan of one subscription value stops at its end.
proof fn lemma_skip_subscribe_value(s: Seq<u8>, i: int, v: Option<Seq<Seq<u8>>>, fuel: nat)
    requires
        0 <= i,
        i + enc_subscribe_value(v).len() + 1 <= s.len(),
        s.subrange(i, i + enc_subscribe_value(v).len()) == enc_subscribe_value(v),
        fuel >= enc_subscribe_value(v).len() + 2,
    ensures
        crate::json::skip_value(s, i, fuel) == Some(i + enc_subscribe_value(v).len()),
{
    let e = enc_subscribe_value(v);
    match v {
        None => {
            assert(s[i] == 0x6e && s[i + 1] == 0x75 && s[i + 2] == 0x6c && s[i + 3] == 0x6c) by {
                assert(s.subrange(i, i + e.len() as int)[0] == e[0]);
                assert(s.subrange(i, i + e.len() as int)[1] == e[1]);
                assert(s.subrange(i, i + e.len() as int)[2] == e[2]);
                assert(s.subrange(i, i + e.len() as int)[3] == e[3]);
            }
        },
        Some(fs) => {
            let ef = enc_fields_from(fs, 0);
            assert(e == seq![0x5bu8] + ef + seq![0x5du8]);
            lemma_sub_split(s, i, seq![0x5bu8] + ef, seq![0x5du8]);
            lemma_sub_split(s, i, seq![0x5bu8], ef);
            lemma_sub_byte(s, i, 0x5b);
            lemma_sub_byte(s, i + 1 + ef.len(), 0x5d);
            if fs.len() == 0 {
                assert(ef.len() == 0);
                lemma_no_ws(s, i + 1);
            } else {
                let es0 = enc_string(fs[0]);
                assert(ef[0] == 0x22) by {
                    assert(es0[0] == 0x22) by {
                        assert(((seq![0x22u8] + esc(fs[0])) + seq![0x22u8])[0] == (seq![0x22u8]
                            + esc(fs[0]))[0]);
                        assert((seq![0x22u8] + esc(fs[0]))[0] == 0x22);
                    }
                    if fs.len() > 1 {
                        assert(((es0 + seq![0x2cu8]) + enc_fields_from(fs, 1))[0] == (es0
                            + seq![0x2cu8])[0]);
                        assert((es0 + seq![0x2cu8])[0] == es0[0]);
                    }
                }
                assert(s[i + 1] == ef[0]) by {
                    assert(s.subrange(i + 1, i + 1 + ef.len())[0] == ef[0]);
                }
                lemma_no_ws(s, i + 1);
                lemma_enc_fields_len(fs, 0);
                lemma_skip_fields(s, i + 1, fs, 0, (fuel - 1) as nat);
            }
        },
    }
}

/// The member scan over encoded subscription entries stops just past the
/// closing brace.
proof fn lemma_skip_entries(
    s: Seq<u8>,
    i: int,
    objs: Seq<(Seq<u8>, Option<Seq<Seq<u8>>>)>,
    k: int,
    fuel: nat,
)
    requires
        0 <= k < objs.len(),
        0 <= i,
        i + enc_objects_from(objs, k).len() + 1 <= s.len(),
        s.subrange(i, i + enc_objects_from(objs, k).len()) == enc_objects_from(objs, k),
        s[i + enc_objects_from(objs, k).len()] == 0x7d,
        fuel >= enc_objects_from(objs, k).len() + 2,
    ensures
        crate::json::skip_members(s, i, fuel) == Some(i + enc_objects_from(objs, k).len() + 1),
    decreases objs.len() - k,
{
    let e = enc_objects_from(objs, k);
    let key = objs[k].0;
    let v = objs[k].1;
    let em = enc_member(key, enc_subscribe_value(v));
    let es = enc_string(key);
    let ev = enc_subscribe_value(v);
    assert(em == es + seq![0x3au8] + ev);
    if k < objs.len() - 1 {
        assert(e == em + seq![0x2cu8] + enc_objects_from(objs, k + 1));
        lemma_sub_split(s, i, em + seq![0x2cu8], enc_objects_from(objs, k + 1));
        lemma_sub_split(s, i, em, seq![0x2cu8]);
    } else {
        assert(e == em);
    }
    assert(s.subrange(i, i + em.len()) == em);
    lemma_sub_split(s, i, es + seq![0x3au8], ev);
    lemma_sub_split(s, i, es, seq![0x3au8]);
    lemma_skip_str_at(s, i, key);
    let c = i + es.len();
    lemma_sub_byte(s, c, 0x3a);
    lemma_no_ws(s, c);
    let v0 = c + 1;
    assert(s.subrange(v0, v0 + ev.len()) == ev);
    assert(ev[0] == 0x6e || ev[0] == 0x5b) by {
        match v {
            None => {},
            Some(fs) => {
                assert(((seq![0x5bu8] + enc_fields_from(fs, 0)) + seq![0x5du8])[0] == (seq![0x5bu8]
                    + enc_fields_from(fs, 0))[0]);
                assert((seq![0x5bu8] + enc_fields_from(fs, 0))[0] == 0x5b);
            },
        }
    }
    assert(s[v0] == ev[0]) by {
        assert(s.subrange(v0, v0 + ev.len())[0] == ev[0]);
    }
    lemma_no_ws(s, v0);
    lemma_skip_subscribe_value(s, v0, v, (fuel - 1) as nat);
    let v_end = v0 + ev.len();
    assert(v_end == i + em.len());
    if k < objs.len() - 1 {
        lemma_sub_byte(s, i + em.len(), 0x2c);
        lemma_no_ws(s, v_end);
        let i2 = i + em.len() + 1;
        let e2 = enc_objects_from(objs, k + 1);
        assert((em + seq![0x2cu8]).len() == em.len() + 1);
        assert(i2 == i + (em + seq![0x2cu8]).len());
        assert(i2 + e2.len() == i + e.len());
        assert(s.subrange(i2, i2 + e2.len()) == e2);
        lemma_enc_objects_len(objs, k + 1);
        assert(e2.len() >= 1);
        assert(e2[0] == 0x22) by {
            let em2 = enc_member(objs[k + 1].0, enc_subscribe_value(objs[k + 1].1));
            let es2 = enc_string(objs[k + 1].0);
            assert(es2[0] == 0x22) by {
                assert(((seq![0x22u8] + esc(objs[k + 1].0)) + seq![0x22u8])[0] == (seq![0x22u8]
                    + esc(objs[k + 1].0))[0]);
                assert((seq![0x22u8] + esc(objs[k + 1].0))[0] == 0x22);
            }
            assert(em2[0] == es2[0]) by {
                assert(((es2 + seq![0x3au8]) + enc_subscribe_value(objs[k + 1].1))[0] == (es2
                    + seq![0x3au8])[0]);
                assert((es2 + seq![0x3au8])[0] == es2[0]);
            }
            if k + 1 < objs.len() - 1 {
                assert(((em2 + seq![0x2cu8]) + enc_objects_from(objs, k + 2))[0] == (em2
                    + seq![0x2cu8])[0]);
                assert((em2 + seq![0x2cu8])[0] == em2[0]);
            }
        }
        assert(s[i2] == e2[0]) by {
            assert(s.subrange(i2, i2 + e2.len())[0] == e2[0]);
        }
        lemma_no_ws(s, i2);
        lemma_skip_entries(s, i2, objs, k + 1, (fuel - 1) as nat);
    } else {
        assert(s[v_end] == 0x7d);
        lemma_no_ws(s, v_end);
    }
}

/// The member scan of a one-member object whose value scan is already
/// known stops just past the closing brace.
proof fn lemma_skip_single_member(s: Seq<u8>, i: int, key: Seq<u8>, vlen: int, fuel: nat)
    requires
        fuel >= 1,
        0 <= i,
        vlen >= 0,
        i + enc_string(key).len() + 1 + vlen + 1 <= s.len(),
        s.subrange(i, i + enc_string(key).len()) == enc_string(key),
        s[i + enc_string(key).len()] == 0x3a,
        !crate::json::is_ws(s[i + enc_string(key).len() + 1]),
        crate::json::skip_value(s, i + enc_string(key).len() + 1, (fuel - 1) as nat) == Some(
            i + enc_string(key).len() + 1 + vlen,
        ),
        s[i + enc_string(key).len() + 1 + vlen] == 0x7d,
    ensures
        crate::json::skip_members(s, i, fuel) == Some(i + enc_string(key).len() + 1 + vlen + 1),
{
    let kk = enc_string(key).len() as int;
    lemma_skip_str_at(s, i, key);
    lemma_no_ws(s, i + kk);
    lemma_no_ws(s, i + kk + 1);
    lemma_no_ws(s, i + kk + 1 + vlen);
}

/// The value scan over an encoded parameter object stops at its end.
pub proof fn lemma_skip_enc_params(s: Seq<u8>, i: int, p: ParamV, fuel: nat)
    requires
        !(p is Raw),
        0 <= i,
        i + enc_params(p).len() <= s.len(),
        s.subrange(i, i + enc_params(p).len()) == enc_params(p),
        fuel >= enc_params(p).len() + 2,
    ensures
        crate::json::skip_value(s, i, fuel) == Some(i + enc_params(p).len()),
{
    let e = enc_params(p);
    match p {
        ParamV::Gcode { script } => {
            let em = enc_member("script".spec_bytes(), enc_string(script));
            skip_simple_member_object(s, i, "script".spec_bytes(), script, fuel);
        },
        ParamV::FileMeta { filename } => {
            skip_simple_member_object(s, i, "filename".spec_bytes(), filename, fuel);
        },
        ParamV::Subscribe { objects } => {
            let inner = seq![0x7bu8] + enc_objects_from(objects, 0) + seq![0x7du8];
            let em = enc_member("objects".spec_bytes(), inner);
            let es = enc_string("objects".spec_bytes());
            assert(e == seq![0x7bu8] + em + seq![0x7du8]);
            lemma_sub_split(s, i, seq![0x7bu8] + em, seq![0x7du8]);
            lemma_sub_split(s, i, seq![0x7bu8], em);
            lemma_sub_byte(s, i, 0x7b);
            lemma_sub_byte(s, i + 1 + em.len(), 0x7d);
            assert(em == es + seq![0x3au8] + inner);
            lemma_sub_split(s, i + 1, es + seq![0x3au8], inner);
            lemma_sub_split(s, i + 1, es, seq![0x3au8]);
            lemma_sub_byte(s, i + 1 + es.len(), 0x3a);
            assert(s[i + 1] == 0x22) by {
                lemma_skip_str_at(s, i + 1, "objects".spec_bytes());
            }
            lemma_no_ws(s, i + 1);
            let v0 = i + 1 + es.len() + 1;
            assert(s.subrange(v0, v0 + inner.len()) == inner);
            lemma_sub_split(s, v0, seq![0x7bu8] + enc_objects_from(objects, 0), seq![0x7du8]);
            lemma_sub_split(s, v0, seq![0x7bu8], enc_objects_from(objects, 0));
            lemma_sub_byte(s, v0, 0x7b);
            lemma_sub_byte(s, v0 + 1 + enc_objects_from(objects, 0).len(), 0x7d);
            lemma_no_ws(s, v0);
            if objects.len() == 0 {
                assert(enc_objects_from(objects, 0).len() == 0);
                lemma_no_ws(s, v0 + 1);
                assert(crate::json::skip_value(s, v0, (fuel - 2) as nat) == Some(
                    v0 + inner.len(),
                ));
            } else {
                let eo = enc_objects_from(objects, 0);
                lemma_enc_objects_len(objects, 0);
                assert(eo[0] == 0x22) by {
                    let em0 = enc_member(objects[0].0, enc_subscribe_value(objects[0].1));
                    let es0 = enc_string(objects[0].0);
                    assert(es0[0] == 0x22) by {
                        assert(((seq![0x22u8] + esc(objects[0].0)) + seq![0x22u8])[0] == (seq![
                            0x22u8,
                        ] + esc(objects[0].0))[0]);
                        assert((seq![0x22u8] + esc(objects[0].0))[0] == 0x22);
                    }
                    assert(em0[0] == es0[0]) by {
                        assert(((es0 + seq![0x3au8]) + enc_subscribe_value(objects[0].1))[0] == (
                        es0 + seq![0x3au8])[0]);
                        assert((es0 + seq![0x3au8])[0] == es0[0]);
                    }
                    if objects.len() > 1 {
                        assert(((em0 + seq![0x2cu8]) + enc_objects_from(objects, 1))[0] == (em0
                            + seq![0x2cu8])[0]);
                        assert((em0 + seq![0x2cu8])[0] == em0[0]);
                    }
                }
                assert(s[v0 + 1] == eo[0]) by {
                    assert(s.subrange(v0 + 1, v0 + 1 + eo.len())[0] == eo[0]);
                }
                lemma_no_ws(s, v0 + 1);
                lemma_skip_entries(s, v0 + 1, objects, 0, (fuel - 3) as nat);
                assert(crate::json::skip_value(s, v0, (fuel - 2) as nat) == Some(
                    v0 + inner.len(),
                ));
            }
            lemma_skip_single_member(s, i + 1, "objects".spec_bytes(), inner.len() as int, (fuel
                - 1) as nat);
        },
        ParamV::Raw { .. } => {},
    }
}

/// The shared shape of the one-string parameter objects.
proof fn skip_simple_member_object(s: Seq<u8>, i: int, key: Seq<u8>, value: Seq<u8>, fuel: nat)
    requires
        0 <= i,
        i + (seq![0x7bu8] + enc_member(key, enc_string(value)) + seq![0x7du8]).len() <= s.len(),
        s.subrange(
            i,
            i + (seq![0x7bu8] + enc_member(key, enc_string(value)) + seq![0x7du8]).len(),
        ) == seq![0x7bu8] + enc_member(key, enc_string(value)) + seq![0x7du8],
        fuel >= 4,
    ensures
        crate::json::skip_value(s, i, fuel) == Some(
            i + (seq![0x7bu8] + enc_member(key, enc_string(value)) + seq![0x7du8]).len(),
        ),
{
    let em = enc_member(key, enc_string(value));
    let es = enc_string(key);
    let ev = enc_string(value);
    let e = seq![0x7bu8] + em + seq![0x7du8];
    lemma_sub_split(s, i, seq![0x7bu8] + em, seq![0x7du8]);
    lemma_sub_split(s, i, seq![0x7bu8], em);
    lemma_sub_byte(s, i, 0x7b);
    lemma_sub_byte(s, i + 1 + em.len(), 0x7d);
    assert(em == es + seq![0x3au8] + ev);
    lemma_sub_split(s, i + 1, es + seq![0x3au8], ev);
    lemma_sub_split(s, i + 1, es, seq![0x3au8]);
    lemma_sub_byte(s, i + 1 + es.len(), 0x3a);
    lemma_skip_str_at(s, i + 1, key);
    lemma_no_ws(s, i + 1);
    let v0 = i + 1 + es.len() + 1;
    assert(s.subrange(v0, v0 + ev.len()) == ev);
    lemma_skip_str_at(s, v0, value);
    lemma_no_ws(s, v0);
    lemma_skip_enc_string(s, v0, value, (fuel - 2) as nat);
    lemma_skip_single_member(s, i + 1, key, ev.len() as int, (fuel - 1) as nat);
}

/// The strict parse of a comma-joined field list recovers the fields.
proof fn lemma_parse_strings_rt(s: Seq<u8>, i: int, fs: Seq<Seq<u8>>, k: int, fuel: nat)
    requires
        0 <= k < fs.len(),
        0 <= i,
        i + enc_fields_from(fs, k).len() + 1 <= s.len(),
        s.subrange(i, i + enc_fields_from(fs, k).len()) == enc_fields_from(fs, k),
        s[i + enc_fields_from(fs, k).len()] == 0x5d,
        fuel >= fs.len() - k + 2,
    ensures
        crate::envelope::parse_strings_spec(s, i, fuel) == Some(
            (fs.subrange(k, fs.len() as int), i + enc_fields_from(fs, k).len() + 1),
        ),
    decreases fs.len() - k,
{
    let e = enc_fields_from(fs, k);
    let es = enc_string(fs[k]);
    if k == fs.len() - 1 {
        assert(e == es);
        lemma_parse_str_at(s, i, fs[k]);
        assert(fs.subrange(k, fs.len() as int) =~= seq![fs[k]]);
    } else {
        assert(e == es + seq![0x2cu8] + enc_fields_from(fs, k + 1));
        lemma_sub_split(s, i, es + seq![0x2cu8], enc_fields_from(fs, k + 1));
        lemma_sub_split(s, i, es, seq![0x2cu8]);
        lemma_parse_str_at(s, i, fs[k]);
        lemma_sub_byte(s, i + es.len(), 0x2c);
        let i2 = i + es.len() + 1;
        lemma_parse_strings_rt(s, i2, fs, k + 1, (fuel - 1) as nat);
        assert(seq![fs[k]] + fs.subrange(k + 1, fs.len() as int) =~= fs.subrange(
            k,
            fs.len() as int,
        ));
    }
}

/// The strict parse of encoded subscription entries recovers the entries.
proof fn lemma_parse_entries_rt(
    s: Seq<u8>,
    i: int,
    objs: Seq<(Seq<u8>, Option<Seq<Seq<u8>>>)>,
    k: int,
    fuel: nat,
)
    requires
        0 <= k < objs.len(),
        0 <= i,
        i + enc_objects_from(objs, k).len() + 1 <= s.len(),
        s.subrange(i, i + enc_objects_from(objs, k).len()) == enc_objects_from(objs, k),
        s[i + enc_objects_from(objs, k).len()] == 0x7d,
        fuel >= enc_objects_from(objs, k).len() + 2,
    ensures
        crate::envelope::parse_entries_spec(s, i, fuel) == Some(
            (objs.subrange(k, objs.len() as int), i + enc_objects_from(objs, k).len() + 1),
        ),
    decreases objs.len() - k,
{
    let e = enc_objects_from(objs, k);
    let key = objs[k].0;
    let v = objs[k].1;
    let em = enc_member(key, enc_subscribe_value(v));
    let es = enc_string(key);
    let ev = enc_subscribe_value(v);
    assert(em == es + seq![0x3au8] + ev);
    if k < objs.len() - 1 {
        assert(e == em + seq![0x2cu8] + enc_objects_from(objs, k + 1));
        lemma_sub_split(s, i, em + seq![0x2cu8], enc_objects_from(objs, k + 1));
        lemma_sub_split(s, i, em, seq![0x2cu8]);
    } else {
        assert(e == em);
    }
    assert(s.subrange(i, i + em.len()) == em);
    lemma_sub_split(s, i, es + seq![0x3au8], ev);
    lemma_sub_split(s, i, es, seq![0x3au8]);
    lemma_parse_str_at(s, i, key);
    let c = i + es.len();
    lemma_sub_byte(s, c, 0x3a);
    let v0 = c + 1;
    assert(s.subrange(v0, v0 + ev.len()) == ev);
    let v_end = v0 + ev.len();
    assert(v_end == i + em.len());
    match v {
        None => {
            assert(s[v0] == 0x6e && s[v0 + 1] == 0x75 && s[v0 + 2] == 0x6c && s[v0 + 3]
                == 0x6c) by {
                assert(s.subrange(v0, v0 + ev.len() as int)[0] == ev[0]);
                assert(s.subrange(v0, v0 + ev.len() as int)[1] == ev[1]);
                assert(s.subrange(v0, v0 + ev.len() as int)[2] == ev[2]);
                assert(s.subrange(v0, v0 + ev.len() as int)[3] == ev[3]);
            }
        },
        Some(fs) => {
            let ef = enc_fields_from(fs, 0);
            assert(ev == seq![0x5bu8] + ef + seq![0x5du8]);
            lemma_sub_split(s, v0, seq![0x5bu8] + ef, seq![0x5du8]);
            lemma_sub_split(s, v0, seq![0x5bu8], ef);
            lemma_sub_byte(s, v0, 0x5b);
            lemma_sub_byte(s, v0 + 1 + ef.len(), 0x5d);
            if fs.len() == 0 {
                assert(ef.len() == 0);
                assert(fs =~= Seq::<Seq<u8>>::empty());
            } else {
                lemma_enc_fields_len(fs, 0);
                lemma_parse_strings_rt(s, v0 + 1, fs, 0, (fuel - 1) as nat);
                assert(fs.subrange(0, fs.len() as int) =~= fs);
            }
        },
    }
    if k < objs.len() - 1 {
        lemma_sub_byte(s, i + em.len(), 0x2c);
        let i2 = i + em.len() + 1;
        let e2 = enc_objects_from(objs, k + 1);
        assert((em + seq![0x2cu8]).len() == em.len() + 1);
        assert(i2 + e2.len() == i + e.len());
        assert(s.subrange(i2, i2 + e2.len()) == e2);
        lemma_enc_objects_len(objs, k + 1);
        lemma_parse_entries_rt(s, i2, objs, k + 1, (fuel - 1) as nat);
        assert(seq![(key, v)] + objs.subrange(k + 1, objs.len() as int) =~= objs.subrange(
            k,
            objs.len() as int,
        ));
    } else {
        assert(s[v_end] == 0x7d);
        assert(seq![(key, v)] =~= objs.subrange(k, objs.len() as int));
    }
}

/// A one-string parameter object parses back to its key and value.
proof fn lemma_parse_simple_rt(key: Seq<u8>, value: Seq<u8>)
    ensures
        ({
            let raw = seq![0x7bu8] + enc_member(key, enc_string(value)) + seq![0x7du8];
            &&& raw.len() >= 1 && raw[0] == 0x7b
            &&& parse_string_spec(raw, 1) == Some((key, 1 + enc_string(key).len() as int))
            &&& raw[1 + enc_string(key).len() as int] == 0x3a
            &&& parse_string_spec(raw, 1 + enc_string(key).len() as int + 1) == Some(
                (value, 1 + enc_member(key, enc_string(value)).len() as int),
            )
            &&& raw[1 + enc_member(key, enc_string(value)).len() as int] == 0x7d
            &&& 1 + enc_member(key, enc_string(value)).len() + 1 == raw.len()
            &&& crate::envelope::parse_simple_param(raw, key) == Some(value)
        }),
{
    let em = enc_member(key, enc_string(value));
    let es = enc_string(key);
    let ev = enc_string(value);
    let raw = seq![0x7bu8] + em + seq![0x7du8];
    assert(raw.subrange(0, raw.len() as int) =~= raw);
    lemma_sub_split(raw, 0, seq![0x7bu8] + em, seq![0x7du8]);
    lemma_sub_split(raw, 0, seq![0x7bu8], em);
    lemma_sub_byte(raw, 0, 0x7b);
    lemma_sub_byte(raw, 1 + em.len() as int, 0x7d);
    assert(em == es + seq![0x3au8] + ev);
    lemma_sub_split(raw, 1, es + seq![0x3au8], ev);
    lemma_sub_split(raw, 1, es, seq![0x3au8]);
    lemma_sub_byte(raw, 1 + es.len() as int, 0x3a);
    lemma_parse_str_at(raw, 1, key);
    lemma_parse_str_at(raw, 1 + es.len() as int + 1, value);
}

/// A structured parameter payload decodes back to itself.
pub proof fn lemma_params_roundtrip(p: ParamV)
    requires
        !(p is Raw),
    ensures
        crate::envelope::params_of_raw(enc_params(p)) == p,
{
    lemma_param_keys_distinct();
    match p {
        ParamV::Gcode { script } => {
            lemma_parse_simple_rt("script".spec_bytes(), script);
        },
        ParamV::FileMeta { filename } => {
            lemma_parse_simple_rt("filename".spec_bytes(), filename);
            let raw = enc_params(p);
            assert(crate::envelope::parse_simple_param(raw, "script".spec_bytes()) is None);
        },
        ParamV::Subscribe { objects } => {
            let eo = enc_objects_from(objects, 0);
            let inner = seq![0x7bu8] + eo + seq![0x7du8];
            let em = enc_member("objects".spec_bytes(), inner);
            let es = enc_string("objects".spec_bytes());
            let raw = enc_params(p);
            assert(raw == seq![0x7bu8] + em + seq![0x7du8]);
            assert(raw.subrange(0, raw.len() as int) =~= raw);
            lemma_sub_split(raw, 0, seq![0x7bu8] + em, seq![0x7du8]);
            lemma_sub_split(raw, 0, seq![0x7bu8], em);
            lemma_sub_byte(raw, 0, 0x7b);
            lemma_sub_byte(raw, 1 + em.len() as int, 0x7d);
            assert(em == es + seq![0x3au8] + inner);
            lemma_sub_split(raw, 1, es + seq![0x3au8], inner);
            lemma_sub_split(raw, 1, es, seq![0x3au8]);
            lemma_sub_byte(raw, 1 + es.len() as int, 0x3a);
            lemma_parse_str_at(raw, 1, "objects".spec_bytes());
            let j = 1 + es.len() as int;
            let v0 = j + 1;
            assert(raw.subrange(v0, v0 + inner.len()) == inner);
            lemma_sub_split(raw, v0, seq![0x7bu8] + eo, seq![0x7du8]);
            lemma_sub_split(raw, v0, seq![0x7bu8], eo);
            lemma_sub_byte(raw, v0, 0x7b);
            lemma_sub_byte(raw, v0 + 1 + eo.len() as int, 0x7d);
            assert(crate::envelope::parse_simple_param(raw, "script".spec_bytes()) is None);
            assert(crate::envelope::parse_simple_param(raw, "filename".spec_bytes()) is None);
            if objects.len() == 0 {
                assert(eo.len() == 0);
                assert(raw[v0 + 1] == 0x7d);
                assert(raw[v0 + 2] == 0x7d);
                assert(v0 + 3 == raw.len());
                assert(crate::envelope::parse_subscribe_param(raw) == Some(objects)) by {
                    assert(objects =~= Seq::<(Seq<u8>, Option<Seq<Seq<u8>>>)>::empty());
                }
            } else {
                lemma_enc_objects_len(objects, 0);
                assert(raw[v0 + 1] != 0x7d) by {
                    let em0 = enc_member(objects[0].0, enc_subscribe_value(objects[0].1));
                    let es0 = enc_string(objects[0].0);
                    assert(es0[0] == 0x22) by {
                        assert(((seq![0x22u8] + esc(objects[0].0)) + seq![0x22u8])[0] == (seq![
                            0x22u8,
                        ] + esc(objects[0].0))[0]);
                        assert((seq![0x22u8] + esc(objects[0].0))[0] == 0x22);
                    }
                    assert(em0[0] == es0[0]) by {
                        assert(((es0 + seq![0x3au8]) + enc_subscribe_value(objects[0].1))[0] == (
                        es0 + seq![0x3au8])[0]);
                        assert((es0 + seq![0x3au8])[0] == es0[0]);
                    }
                    if objects.len() > 1 {
                        assert(((em0 + seq![0x2cu8]) + enc_objects_from(objects, 1))[0] == (em0
                            + seq![0x2cu8])[0]);
                        assert((em0 + seq![0x2cu8])[0] == em0[0]);
                    }
                    assert(eo[0] == 0x22);
                    assert(raw[v0 + 1] == eo[0]) by {
                        assert(raw.subrange(v0 + 1, v0 + 1 + eo.len())[0] == eo[0]);
                    }
                }
                lemma_parse_entries_rt(raw, v0 + 1, objects, 0, (raw.len() + 2) as nat);
                assert(objects.subrange(0, objects.len() as int) =~= objects);
                let end = v0 + 1 + eo.len() + 1;
                assert(raw[end] == 0x7d && end + 1 == raw.len());
                assert(crate::envelope::parse_subscribe_param(raw) == Some(objects));
            }
        },
        ParamV::Raw { .. } => {},
    }
}

/// One step of the member scan over an encoded member whose value scan is
/// known: the scan records the key and the value's extent, then continues
/// after the comma or stops after the brace.
proof fn lemma_member_step(s: Seq<u8>, i: int, key: Seq<u8>, vlen: int, fuel: nat, last: bool)
    requires
        fuel >= 1,
        0 <= i,
        vlen >= 0,
        i + enc_string(key).len() + 1 + vlen + 1 <= s.len(),
        s.subrange(i, i + enc_string(key).len()) == enc_string(key),
        s[i + enc_string(key).len()] == 0x3a,
        !crate::json::is_ws(s[i + enc_string(key).len() + 1]),
        crate::json::skip_value(s, i + enc_string(key).len() + 1, (fuel - 1) as nat) == Some(
            i + enc_string(key).len() + 1 + vlen,
        ),
        s[i + enc_string(key).len() + 1 + vlen] == (if last {
            0x7du8
        } else {
            0x2cu8
        }),
        !last ==> i + enc_string(key).len() + 1 + vlen + 1 < s.len() && !crate::json::is_ws(
            s[i + enc_string(key).len() + 1 + vlen + 1],
        ),
    ensures
        ({
            let a = i + enc_string(key).len() + 1;
            let t = a + vlen;
            if last {
                crate::envelope::parse_members_spec(s, i, fuel) == Some(
                    (seq![(key, (a, t))], t + 1),
                )
            } else {
                crate::envelope::parse_members_spec(s, i, fuel) == (
                match crate::envelope::parse_members_spec(s, t + 1, (fuel - 1) as nat) {
                    None => None::<(Seq<(Seq<u8>, (int, int))>, int)>,
                    Some((rest, end)) => Some((seq![(key, (a, t))] + rest, end)),
                })
            }
        }),
{
    reveal(crate::envelope::parse_members_spec);
    let kk = enc_string(key).len() as int;
    lemma_parse_str_at(s, i, key);
    lemma_no_ws(s, i + kk);
    lemma_no_ws(s, i + kk + 1);
    lemma_no_ws(s, i + kk + 1 + vlen);
    if !last {
        lemma_no_ws(s, i + kk + 1 + vlen + 1);
    }
}

/// Everything the member scan needs of one encoded member at `p`: its key
/// string, the colon, a value whose scan is known, and the comma or brace
/// after it, the comma followed by the next member's opening quote.
pub open spec fn member_ready(
    s: Seq<u8>,
    p: int,
    key: Seq<u8>,
    vlen: int,
    fuel: nat,
    last: bool,
) -> bool {
    let kk = enc_string(key).len() as int;
    &&& fuel >= 1
    &&& 0 <= p
    &&& vlen >= 0
    &&& p + kk + 1 + vlen + 1 <= s.len()
    &&& s.subrange(p, p + kk) == enc_string(key)
    &&& s[p + kk] == 0x3a
    &&& !crate::json::is_ws(s[p + kk + 1])
    &&& crate::json::skip_value(s, p + kk + 1, (fuel - 1) as nat) == Some(p + kk + 1 + vlen)
    &&& s[p + kk + 1 + vlen] == (if last {
        0x7du8
    } else {
        0x2cu8
    })
    &&& !last ==> p + kk + 1 + vlen + 1 < s.len() && !crate::json::is_ws(s[p + kk + 1 + vlen + 1])
}

/// `lemma_member_step`, from the bundled hypothesis.
proof fn lemma_member_step_ready(s: Seq<u8>, p: int, key: Seq<u8>, vlen: int, fuel: nat, last: bool)
    requires
        member_ready(s, p, key, vlen, fuel, last),
    ensures
        ({
            let a = p + enc_string(key).len() + 1;
            let t = a + vlen;
            if last {
                crate::envelope::parse_members_spec(s, p, fuel) == Some(
                    (seq![(key, (a, t))], t + 1),
                )
            } else {
                crate::envelope::parse_members_spec(s, p, fuel) == (
                match crate::envelope::parse_members_spec(s, t + 1, (fuel - 1) as nat) {
                    None => None::<(Seq<(Seq<u8>, (int, int))>, int)>,
                    Some((rest, end)) => Some((seq![(key, (a, t))] + rest, end)),
                })
            }
        }),
{
    lemma_member_step(s, p, key, vlen, fuel, last);
}

/// A member whose value is an encoded string is ready for the scan.
proof fn lemma_member_ready_string(
    s: Seq<u8>,
    p: int,
    key: Seq<u8>,
    x: Seq<u8>,
    fuel: nat,
    last: bool,
)
    requires
        fuel >= 2,
        0 <= p,
        p + enc_member(key, enc_string(x)).len() + 1 <= s.len(),
        s.subrange(p, p + enc_member(key, enc_string(x)).len()) == enc_member(key, enc_string(x)),
        s[p + enc_member(key, enc_string(x)).len()] == (if last {
            0x7du8
        } else {
            0x2cu8
        }),
        !last ==> p + enc_member(key, enc_string(x)).len() + 1 < s.len() && !crate::json::is_ws(
            s[p + enc_member(key, enc_string(x)).len() + 1],
        ),
    ensures
        member_ready(s, p, key, enc_string(x).len() as int, fuel, last),
{
    lemma_member_layout(s, p, key, enc_string(x));
    let kk = enc_string(key).len() as int;
    let a = p + kk + 1;
    lemma_skip_enc_string(s, a, x, (fuel - 1) as nat);
    assert(s[a] == 0x22) by {
        assert(s.subrange(a, a + enc_string(x).len())[0] == enc_string(x)[0]);
        assert(((seq![0x22u8] + esc(x)) + seq![0x22u8])[0] == (seq![0x22u8] + esc(x))[0]);
        assert((seq![0x22u8] + esc(x))[0] == 0x22);
    }
}

/// A member whose value is a rendered number is ready for the scan.
proof fn lemma_member_ready_dec(s: Seq<u8>, p: int, key: Seq<u8>, id: u16, fuel: nat, last: bool)
    requires
        fuel >= 2,
        0 <= p,
        p + enc_member(key, crate::utils::dec_u64(id as u64)).len() + 1 <= s.len(),
        s.subrange(p, p + enc_member(key, crate::utils::dec_u64(id as u64)).len()) == enc_member(
            key,
            crate::utils::dec_u64(id as u64),
        ),
        s[p + enc_member(key, crate::utils::dec_u64(id as u64)).len()] == (if last {
            0x7du8
        } else {
            0x2cu8
        }),
        !last ==> p + enc_member(key, crate::utils::dec_u64(id as u64)).len() + 1 < s.len()
            && !crate::json::is_ws(
            s[p + enc_member(key, crate::utils::dec_u64(id as u64)).len() + 1],
        ),
    ensures
        member_ready(s, p, key, crate::utils::dec_u64(id as u64).len() as int, fuel, last),
{
    let d = crate::utils::dec_u64(id as u64);
    lemma_member_layout(s, p, key, d);
    let kk = enc_string(key).len() as int;
    let a = p + kk + 1;
    crate::utils::lemma_dec_len(id as u64);
    assert(!crate::json::is_num_byte(s[a + d.len()]));
    lemma_skip_dec(s, a, id, (fuel - 1) as nat);
    assert(!crate::json::is_ws(s[a])) by {
        assert(s.subrange(a, a + d.len())[0] == d[0]);
        crate::json::lemma_dec_all_digits(id as u64, 0);
    }
}

/// A member whose value is an encoded parameter object is ready for the
/// scan.
proof fn lemma_member_ready_params(
    s: Seq<u8>,
    p: int,
    key: Seq<u8>,
    pp: ParamV,
    fuel: nat,
    last: bool,
)
    requires
        !(pp is Raw),
        fuel >= enc_params(pp).len() + 3,
        0 <= p,
        p + enc_member(key, enc_params(pp)).len() + 1 <= s.len(),
        s.subrange(p, p + enc_member(key, enc_params(pp)).len()) == enc_member(
            key,
            enc_params(pp),
        ),
        s[p + enc_member(key, enc_params(pp)).len()] == (if last {
            0x7du8
        } else {
            0x2cu8
        }),
        !last ==> p + enc_member(key, enc_params(pp)).len() + 1 < s.len() && !crate::json::is_ws(
            s[p + enc_member(key, enc_params(pp)).len() + 1],
        ),
    ensures
        member_ready(s, p, key, enc_params(pp).len() as int, fuel, last),
{
    let ep = enc_params(pp);
    lemma_member_layout(s, p, key, ep);
    let kk = enc_string(key).len() as int;
    let a = p + kk + 1;
    lemma_skip_enc_params(s, a, pp, (fuel - 1) as nat);
    assert(!crate::json::is_ws(s[a])) by {
        assert(s.subrange(a, a + ep.len())[0] == ep[0]);
        lemma_enc_params_brace(pp);
    }
}

/// An encoded parameter object opens with its brace.
proof fn lemma_enc_params_brace(p: ParamV)
    requires
        !(p is Raw),
    ensures
        enc_params(p).len() >= 2,
        enc_params(p)[0] == 0x7b,
{
    match p {
        ParamV::Gcode { script } => {
            let em = enc_member("script".spec_bytes(), enc_string(script));
            assert(((seq![0x7bu8] + em) + seq![0x7du8])[0] == (seq![0x7bu8] + em)[0]);
            assert((seq![0x7bu8] + em)[0] == 0x7b);
        },
        ParamV::FileMeta { filename } => {
            let em = enc_member("filename".spec_bytes(), enc_string(filename));
            assert(((seq![0x7bu8] + em) + seq![0x7du8])[0] == (seq![0x7bu8] + em)[0]);
            assert((seq![0x7bu8] + em)[0] == 0x7b);
        },
        ParamV::Subscribe { objects } => {
            let inner = seq![0x7bu8] + enc_objects_from(objects, 0) + seq![0x7du8];
            let em = enc_member("objects".spec_bytes(), inner);
            assert(((seq![0x7bu8] + em) + seq![0x7du8])[0] == (seq![0x7bu8] + em)[0]);
            assert((seq![0x7bu8] + em)[0] == 0x7b);
        },
        ParamV::Raw { .. } => {},
    }
}

/// The first byte of an encoded member is its key's opening quote.
proof fn lemma_member_head(key: Seq<u8>, v: Seq<u8>)
    ensures
        enc_member(key, v).len() >= 3,
        enc_member(key, v)[0] == 0x22,
{
    let es = enc_string(key);
    assert(es[0] == 0x22) by {
        assert(((seq![0x22u8] + esc(key)) + seq![0x22u8])[0] == (seq![0x22u8] + esc(key))[0]);
        assert((seq![0x22u8] + esc(key))[0] == 0x22);
    }
    assert(((es + seq![0x3au8]) + v)[0] == (es + seq![0x3au8])[0]);
    assert((es + seq![0x3au8])[0] == es[0]);
}

/// The member scan over four ready members in a row reports exactly those
/// four members and stops after the closing brace.
#[verifier::rlimit(100)]
#[verifier::spinoff_prover]
proof fn lemma_steps4(
    s: Seq<u8>,
    p1: int,
    k1: Seq<u8>,
    l1: int,
    k2: Seq<u8>,
    l2: int,
    k3: Seq<u8>,
    l3: int,
    k4: Seq<u8>,
    l4: int,
    fuel: nat,
)
    requires
        fuel >= 4,
        member_ready(s, p1, k1, l1, fuel, false),
        member_ready(
            s,
            p1 + enc_string(k1).len() + 1 + l1 + 1,
            k2,
            l2,
            (fuel - 1) as nat,
            false,
        ),
        member_ready(
            s,
            p1 + enc_string(k1).len() + 1 + l1 + 1 + enc_string(k2).len() + 1 + l2 + 1,
            k3,
            l3,
            (fuel - 2) as nat,
            false,
        ),
        member_ready(
            s,
            p1 + enc_string(k1).len() + 1 + l1 + 1 + enc_string(k2).len() + 1 + l2 + 1
                + enc_string(k3).len() + 1 + l3 + 1,
            k4,
            l4,
            (fuel - 3) as nat,
            true,
        ),
    ensures
        ({
            let a1 = p1 + enc_string(k1).len() + 1;
            let t1 = a1 + l1;
            let a2 = t1 + 1 + enc_string(k2).len() + 1;
            let t2 = a2 + l2;
            let a3 = t2 + 1 + enc_string(k3).len() + 1;
            let t3 = a3 + l3;
            let a4 = t3 + 1 + enc_string(k4).len() + 1;
            let t4 = a4 + l4;
            crate::envelope::parse_members_spec(s, p1, fuel) == Some(
                (
                    seq![(k1, (a1, t1))] + (seq![(k2, (a2, t2))] + (seq![(k3, (a3, t3))] + seq![
                        (k4, (a4, t4)),
                    ])),
                    t4 + 1,
                ),
            )
        }),
{
    let p2 = p1 + enc_string(k1).len() + 1 + l1 + 1;
    let p3 = p2 + enc_string(k2).len() + 1 + l2 + 1;
    let p4 = p3 + enc_string(k3).len() + 1 + l3 + 1;
    let a4 = p4 + enc_string(k4).len() + 1;
    lemma_member_step_ready(s, p4, k4, l4, (fuel - 3) as nat, true);
    assert(crate::envelope::parse_members_spec(s, p4, (fuel - 3) as nat) == Some(
        (seq![(k4, (a4, a4 + l4))], a4 + l4 + 1),
    ));
    lemma_member_step_ready(s, p3, k3, l3, (fuel - 2) as nat, false);
    lemma_member_step_ready(s, p2, k2, l2, (fuel - 1) as nat, false);
    lemma_member_step_ready(s, p1, k1, l1, fuel, false);
}

/// The layout of a four-member envelope.
#[verifier::rlimit(100)]
#[verifier::spinoff_prover]
proof fn lemma_envelope_split4(e: Seq<u8>, m1: Seq<u8>, m2: Seq<u8>, m3: Seq<u8>, m4: Seq<u8>)
    requires
        e == seq![0x7bu8] + m1 + seq![0x2cu8] + m2 + seq![0x2cu8] + m3 + seq![0x2cu8] + m4 + seq![
            0x7du8,
        ],
    ensures
        e.len() == m1.len() + m2.len() + m3.len() + m4.len() + 5,
        e[0] == 0x7b,
        e.subrange(1, 1 + m1.len() as int) == m1,
        e[1 + m1.len() as int] == 0x2c,
        e.subrange(2 + m1.len() as int, 2 + m1.len() + m2.len() as int) == m2,
        e[2 + m1.len() + m2.len() as int] == 0x2c,
        e.subrange(
            3 + m1.len() + m2.len() as int,
            3 + m1.len() + m2.len() + m3.len() as int,
        ) == m3,
        e[3 + m1.len() + m2.len() + m3.len() as int] == 0x2c,
        e.subrange(
            4 + m1.len() + m2.len() + m3.len() as int,
            4 + m1.len() + m2.len() + m3.len() + m4.len() as int,
        ) == m4,
        e[4 + m1.len() + m2.len() + m3.len() + m4.len() as int] == 0x7d,
{
    assert(e.subrange(0, e.len() as int) =~= e);
    lemma_sub_split(e, 0, seq![0x7bu8] + m1 + seq![0x2cu8] + m2 + seq![0x2cu8] + m3 + seq![0x2cu8]
        + m4, seq![0x7du8]);
    lemma_sub_split(e, 0, seq![0x7bu8] + m1 + seq![0x2cu8] + m2 + seq![0x2cu8] + m3 + seq![0x2cu8],
        m4);
    lemma_sub_split(e, 0, seq![0x7bu8] + m1 + seq![0x2cu8] + m2 + seq![0x2cu8] + m3, seq![0x2cu8]);
    lemma_sub_split(e, 0, seq![0x7bu8] + m1 + seq![0x2cu8] + m2 + seq![0x2cu8], m3);
    lemma_sub_split(e, 0, seq![0x7bu8] + m1 + seq![0x2cu8] + m2, seq![0x2cu8]);
    lemma_sub_split(e, 0, seq![0x7bu8] + m1 + seq![0x2cu8], m2);
    lemma_sub_split(e, 0, seq![0x7bu8] + m1, seq![0x2cu8]);
    lemma_sub_split(e, 0, seq![0x7bu8], m1);
    lemma_sub_byte(e, 0, 0x7b);
    lemma_sub_byte(e, 1 + m1.len() as int, 0x2c);
    lemma_sub_byte(e, 2 + m1.len() + m2.len() as int, 0x2c);
    lemma_sub_byte(e, 3 + m1.len() + m2.len() + m3.len() as int, 0x2c);
    lemma_sub_byte(e, 4 + m1.len() + m2.len() + m3.len() + m4.len() as int, 0x7d);
}

/// The decoder's member reading over a scanned four-member request:
/// version, method, params, id.
#[verifier::rlimit(100)]
#[verifier::spinoff_prover]
proof fn lemma_decode_members_4(
    s: Seq<u8>,
    ver: Seq<u8>,
    method: MoonrakerMethod,
    params: ParamV,
    id: u16,
    a1: int,
    q1: int,
    a2: int,
    q2: int,
    a3: int,
    q3: int,
    a4: int,
    q4: int,
)
    requires
        parse_string_spec(s, a1) == Some((ver, q1)),
        parse_string_spec(s, a2) == Some((method_name_spec(method), q2)),
        0 <= a3 <= q3 <= s.len(),
        crate::envelope::params_of_raw(s.subrange(a3, q3)) == params,
        crate::json::parse_u16_spec(s, a4) == Some((id, q4)),
    ensures
        crate::envelope::decode_members_spec(
            s,
            seq![
                ("jsonrpc".spec_bytes(), (a1, q1)),
                ("method".spec_bytes(), (a2, q2)),
                ("params".spec_bytes(), (a3, q3)),
                ("id".spec_bytes(), (a4, q4)),
            ],
        ) == Ok::<crate::envelope::MsgV, crate::envelope::DecodeError>(
            crate::envelope::MsgV::MethodParamId { jsonrpc: ver, method, params, id },
        ),
{
    lemma_envelope_keys_distinct();
    lemma_method_name_roundtrip(method);
    let jk = "jsonrpc".spec_bytes();
    let mk = "method".spec_bytes();
    let pk = "params".spec_bytes();
    let ik = "id".spec_bytes();
    let rk = "result".spec_bytes();
    let msf = seq![(jk, (a1, q1)), (mk, (a2, q2)), (pk, (a3, q3)), (ik, (a4, q4))];
    let t1 = seq![(mk, (a2, q2)), (pk, (a3, q3)), (ik, (a4, q4))];
    let t2 = seq![(pk, (a3, q3)), (ik, (a4, q4))];
    let t3 = seq![(ik, (a4, q4))];
    let t4 = Seq::<(Seq<u8>, (int, int))>::empty();
    assert(msf.drop_first() =~= t1);
    assert(t1.drop_first() =~= t2);
    assert(t2.drop_first() =~= t3);
    assert(t3.drop_first() =~= t4);
    assert(crate::envelope::find_member_spec(t4, rk) is None);
    assert(crate::envelope::find_member_spec(t3, rk) is None);
    assert(crate::envelope::find_member_spec(t3, ik) == Some((a4, q4)));
    assert(crate::envelope::find_member_spec(t2, rk) is None);
    assert(crate::envelope::find_member_spec(t2, ik) == Some((a4, q4)));
    assert(crate::envelope::find_member_spec(t2, pk) == Some((a3, q3)));
    assert(crate::envelope::find_member_spec(t1, rk) is None);
    assert(crate::envelope::find_member_spec(t1, ik) == Some((a4, q4)));
    assert(crate::envelope::find_member_spec(t1, pk) == Some((a3, q3)));
    assert(crate::envelope::find_member_spec(t1, mk) == Some((a2, q2)));
    assert(crate::envelope::find_member_spec(msf, jk) == Some((a1, q1)));
    assert(crate::envelope::find_member_spec(msf, mk) == Some((a2, q2)));
    assert(crate::envelope::find_member_spec(msf, pk) == Some((a3, q3)));
    assert(crate::envelope::find_member_spec(msf, ik) == Some((a4, q4)));
    assert(crate::envelope::find_member_spec(msf, rk) is None);
}

/// The four members of a laid-out request with parameters are each ready
/// for the member scan, under the scan's own fuel.
#[verifier::rlimit(100)]
#[verifier::spinoff_prover]
proof fn lemma_ready4(e: Seq<u8>, jsonrpc: Seq<u8>, name: Seq<u8>, params: ParamV, id: u16)
    requires
        !(params is Raw),
        ({
            let m1 = enc_member("jsonrpc".spec_bytes(), enc_string(jsonrpc));
            let m2 = enc_member("method".spec_bytes(), enc_string(name));
            let m3 = enc_member("params".spec_bytes(), enc_params(params));
            let m4 = enc_member("id".spec_bytes(), crate::utils::dec_u64(id as u64));
            &&& e.len() == m1.len() + m2.len() + m3.len() + m4.len() + 5
            &&& e.subrange(1, 1 + m1.len() as int) == m1
            &&& e[1 + m1.len() as int] == 0x2c
            &&& e.subrange(2 + m1.len() as int, 2 + m1.len() + m2.len() as int) == m2
            &&& e[2 + m1.len() + m2.len() as int] == 0x2c
            &&& e.subrange(
                3 + m1.len() + m2.len() as int,
                3 + m1.len() + m2.len() + m3.len() as int,
            ) == m3
            &&& e[3 + m1.len() + m2.len() + m3.len() as int] == 0x2c
            &&& e.subrange(
                4 + m1.len() + m2.len() + m3.len() as int,
                4 + m1.len() + m2.len() + m3.len() + m4.len() as int,
            ) == m4
            &&& e[4 + m1.len() + m2.len() + m3.len() + m4.len() as int] == 0x7d
        }),
    ensures
        ({
            let jk = "jsonrpc".spec_bytes();
            let mk = "method".spec_bytes();
            let pk = "params".spec_bytes();
            let ik = "id".spec_bytes();
            let l1 = enc_string(jsonrpc).len() as int;
            let l2 = enc_string(name).len() as int;
            let l3 = enc_params(params).len() as int;
            let l4 = crate::utils::dec_u64(id as u64).len() as int;
            let fuel = (e.len() + 2) as nat;
            let p2 = 1 + enc_string(jk).len() + 1 + l1 + 1;
            let p3 = p2 + enc_string(mk).len() + 1 + l2 + 1;
            let p4 = p3 + enc_string(pk).len() + 1 + l3 + 1;
            &&& member_ready(e, 1, jk, l1, fuel, false)
            &&& member_ready(e, p2, mk, l2, (fuel - 1) as nat, false)
            &&& member_ready(e, p3, pk, l3, (fuel - 2) as nat, false)
            &&& member_ready(e, p4, ik, l4, (fuel - 3) as nat, true)
        }),
{
    let jk = "jsonrpc".spec_bytes();
    let mk = "method".spec_bytes();
    let pk = "params".spec_bytes();
    let ik = "id".spec_bytes();
    let d = crate::utils::dec_u64(id as u64);
    let ep = enc_params(params);
    let m1 = enc_member(jk, enc_string(jsonrpc));
    let m2 = enc_member(mk, enc_string(name));
    let m3 = enc_member(pk, ep);
    let m4 = enc_member(ik, d);
    let fuel = (e.len() + 2) as nat;
    let p1 = 1int;
    let p2 = p1 + m1.len();
    let p3 = p2 + 1 + m2.len();
    let p4 = p3 + 1 + m3.len();
    lemma_member_head(jk, enc_string(jsonrpc));
    lemma_member_head(mk, enc_string(name));
    lemma_member_head(pk, ep);
    lemma_member_head(ik, d);
    assert(e[p2 + 1] == 0x22) by {
        assert(e.subrange(p2 + 1, p2 + 1 + m2.len())[0] == m2[0]);
    }
    assert(e[p3 + 1] == 0x22) by {
        assert(e.subrange(p3 + 1, p3 + 1 + m3.len())[0] == m3[0]);
    }
    assert(e[p4 + 1] == 0x22) by {
        assert(e.subrange(p4 + 1, p4 + 1 + m4.len())[0] == m4[0]);
    }
    lemma_member_ready_string(e, p1, jk, jsonrpc, fuel, false);
    lemma_member_ready_string(e, p2 + 1, mk, name, (fuel - 1) as nat, false);
    assert(fuel - 2 >= ep.len() + 3);
    lemma_member_ready_params(e, p3 + 1, pk, params, (fuel - 2) as nat, false);
    lemma_member_ready_dec(e, p4 + 1, ik, id, (fuel - 3) as nat, true);
}

/// A request the library can build and send: with a correlation id, its
/// parameters, if any, one of the modeled kinds.
pub open spec fn encodable_request(m: crate::envelope::MsgV) -> bool {
    match m {
        crate::envelope::MsgV::MethodParamId { params, .. } => !(params is Raw),
        crate::envelope::MsgV::MethodId { .. } => true,
        _ => false,
    }
}

/// The layout of one encoded member: key string, colon, value bytes.
proof fn lemma_member_layout(s: Seq<u8>, i: int, key: Seq<u8>, v: Seq<u8>)
    requires
        0 <= i,
        i + enc_member(key, v).len() <= s.len(),
        s.subrange(i, i + enc_member(key, v).len()) == enc_member(key, v),
    ensures
        enc_member(key, v).len() == enc_string(key).len() + 1 + v.len(),
        s.subrange(i, i + enc_string(key).len()) == enc_string(key),
        s[i + enc_string(key).len()] == 0x3a,
        s.subrange(i + enc_string(key).len() + 1, i + enc_member(key, v).len()) == v,
{
    let es = enc_string(key);
    assert(enc_member(key, v) == es + seq![0x3au8] + v);
    lemma_sub_split(s, i, es + seq![0x3au8], v);
    lemma_sub_split(s, i, es, seq![0x3au8]);
    lemma_sub_byte(s, i + es.len() as int, 0x3a);
}

/// Encoding a request and decoding the same bytes recovers the request:
/// its version tag, method, parameters and correlation id all come back
/// as they went out, for every modeled parameter variant.
pub proof fn lemma_encode_decode_roundtrip(m: crate::envelope::MsgV)
    requires
        encodable_request(m),
    ensures
        crate::envelope::decode_spec(enc_envelope(m)) == Ok::<
            crate::envelope::MsgV,
            crate::envelope::DecodeError,
        >(m),
{
    match m {
        crate::envelope::MsgV::MethodId { jsonrpc, method, id } => {
            lemma_roundtrip_method_id(jsonrpc, method, id);
        },
        crate::envelope::MsgV::MethodParamId { jsonrpc, method, params, id } => {
            lemma_roundtrip_method_param_id(jsonrpc, method, params, id);
        },
        _ => {},
    }
}

/// The decoder's member reading over a scanned three-member request:
/// version, method, id.
#[verifier::rlimit(100)]
#[verifier::spinoff_prover]
proof fn lemma_decode_members_3(
    s: Seq<u8>,
    ver: Seq<u8>,
    method: MoonrakerMethod,
    id: u16,
    a1: int,
    q1: int,
    a2: int,
    q2: int,
    a4: int,
    q4: int,
)
    requires
        parse_string_spec(s, a1) == Some((ver, q1)),
        parse_string_spec(s, a2) == Some((method_name_spec(method), q2)),
        crate::json::parse_u16_spec(s, a4) == Some((id, q4)),
    ensures
        crate::envelope::decode_members_spec(
            s,
            seq![
                ("jsonrpc".spec_bytes(), (a1, q1)),
                ("method".spec_bytes(), (a2, q2)),
                ("id".spec_bytes(), (a4, q4)),
            ],
        ) == Ok::<crate::envelope::MsgV, crate::envelope::DecodeError>(
            crate::envelope::MsgV::MethodId { jsonrpc: ver, method, id },
        ),
{
    lemma_envelope_keys_distinct();
    lemma_method_name_roundtrip(method);
    let jk = "jsonrpc".spec_bytes();
    let mk = "method".spec_bytes();
    let pk = "params".spec_bytes();
    let ik = "id".spec_bytes();
    let rk = "result".spec_bytes();
    let msf = seq![(jk, (a1, q1)), (mk, (a2, q2)), (ik, (a4, q4))];
    let t1 = seq![(mk, (a2, q2)), (ik, (a4, q4))];
    let t2 = seq![(ik, (a4, q4))];
    let t3 = Seq::<(Seq<u8>, (int, int))>::empty();
    assert(msf.drop_first() =~= t1);
    assert(t1.drop_first() =~= t2);
    assert(t2.drop_first() =~= t3);
    assert(crate::envelope::find_member_spec(t3, rk) is None);
    assert(crate::envelope::find_member_spec(t3, pk) is None);
    assert(crate::envelope::find_member_spec(t2, rk) is None);
    assert(crate::envelope::find_member_spec(t2, pk) is None);
    assert(crate::envelope::find_member_spec(t2, ik) == Some((a4, q4)));
    assert(crate::envelope::find_member_spec(t1, rk) is None);
    assert(crate::envelope::find_member_spec(t1, pk) is None);
    assert(crate::envelope::find_member_spec(t1, ik) == Some((a4, q4)));
    assert(crate::envelope::find_member_spec(t1, mk) == Some((a2, q2)));
    assert(crate::envelope::find_member_spec(msf, jk) == Some((a1, q1)));
    assert(crate::envelope::find_member_spec(msf, mk) == Some((a2, q2)));
    assert(crate::envelope::find_member_spec(msf, ik) == Some((a4, q4)));
    assert(crate::envelope::find_member_spec(msf, rk) is None);
    assert(crate::envelope::find_member_spec(msf, pk) is None);
}

/// The layout of a three-member envelope: brace, members, commas, brace.
#[verifier::rlimit(100)]
#[verifier::spinoff_prover]
proof fn lemma_envelope_split3(e: Seq<u8>, m1: Seq<u8>, m2: Seq<u8>, m4: Seq<u8>)
    requires
        e == seq![0x7bu8] + m1 + seq![0x2cu8] + m2 + seq![0x2cu8] + m4 + seq![0x7du8],
    ensures
        e.len() == m1.len() + m2.len() + m4.len() + 4,
        e[0] == 0x7b,
        e.subrange(1, 1 + m1.len() as int) == m1,
        e[1 + m1.len() as int] == 0x2c,
        e.subrange(2 + m1.len() as int, 2 + m1.len() as int + m2.len() as int) == m2,
        e[2 + m1.len() as int + m2.len() as int] == 0x2c,
        e.subrange(3 + m1.len() as int + m2.len() as int, 3 + m1.len() as int + m2.len() as int + m4.len() as int) == m4,
        e[3 + m1.len() as int + m2.len() as int + m4.len() as int] == 0x7d,
{
    assert(e.subrange(0, e.len() as int) =~= e);
    lemma_sub_split(e, 0, seq![0x7bu8] + m1 + seq![0x2cu8] + m2 + seq![0x2cu8] + m4, seq![0x7du8]);
    lemma_sub_split(e, 0, seq![0x7bu8] + m1 + seq![0x2cu8] + m2 + seq![0x2cu8], m4);
    lemma_sub_split(e, 0, seq![0x7bu8] + m1 + seq![0x2cu8] + m2, seq![0x2cu8]);
    lemma_sub_split(e, 0, seq![0x7bu8] + m1 + seq![0x2cu8], m2);
    lemma_sub_split(e, 0, seq![0x7bu8] + m1, seq![0x2cu8]);
    lemma_sub_split(e, 0, seq![0x7bu8], m1);
    lemma_sub_byte(e, 0, 0x7b);
    lemma_sub_byte(e, 1 + m1.len() as int, 0x2c);
    lemma_sub_byte(e, 2 + m1.len() as int + m2.len() as int, 0x2c);
    lemma_sub_byte(e, 3 + m1.len() as int + m2.len() as int + m4.len() as int, 0x7d);
}

/// The member scan over a laid-out three-member envelope, with the
/// layout given as flat facts.
#[verifier::rlimit(100)]
#[verifier::spinoff_prover]
proof fn lemma_scan3(e: Seq<u8>, jsonrpc: Seq<u8>, name: Seq<u8>, id: u16)
    requires
        ({
            let jk = "jsonrpc".spec_bytes();
            let mk = "method".spec_bytes();
            let ik = "id".spec_bytes();
            let m1 = enc_member(jk, enc_string(jsonrpc));
            let m2 = enc_member(mk, enc_string(name));
            let m4 = enc_member(ik, crate::utils::dec_u64(id as u64));
            let p1 = 1int;
            let q1 = p1 + m1.len();
            let p2 = q1 + 1;
            let q2 = p2 + m2.len();
            let p4 = q2 + 1;
            let q4 = p4 + m4.len();
            &&& e.len() == q4 + 1
            &&& e.subrange(p1, q1) == m1
            &&& e[q1] == 0x2c
            &&& e.subrange(p2, q2) == m2
            &&& e[q2] == 0x2c
            &&& e.subrange(p4, q4) == m4
            &&& e[q4] == 0x7d
        }),
    ensures
        ({
            let jk = "jsonrpc".spec_bytes();
            let mk = "method".spec_bytes();
            let ik = "id".spec_bytes();
            let m1 = enc_member(jk, enc_string(jsonrpc));
            let m2 = enc_member(mk, enc_string(name));
            let m4 = enc_member(ik, crate::utils::dec_u64(id as u64));
            let q1 = 1 + m1.len() as int;
            let q2 = q1 + 1 + m2.len() as int;
            let q4 = q2 + 1 + m4.len() as int;
            let a1 = 1 + enc_string(jk).len() as int + 1;
            let a2 = q1 + 1 + enc_string(mk).len() as int + 1;
            let a4 = q2 + 1 + enc_string(ik).len() as int + 1;
            &&& e[1] == 0x22
            &&& crate::envelope::parse_members_spec(e, 1, (e.len() + 2) as nat) == Some(
                (seq![(jk, (a1, q1)), (mk, (a2, q2)), (ik, (a4, q4))], e.len() as int),
            )
            &&& parse_string_spec(e, a1) == Some((jsonrpc, q1))
            &&& parse_string_spec(e, a2) == Some((name, q2))
            &&& crate::json::parse_u16_spec(e, a4) == Some((id, q4))
        }),
{
    let jk = "jsonrpc".spec_bytes();
    let mk = "method".spec_bytes();
    let ik = "id".spec_bytes();
    let d = crate::utils::dec_u64(id as u64);
    let m1 = enc_member(jk, enc_string(jsonrpc));
    let m2 = enc_member(mk, enc_string(name));
    let m4 = enc_member(ik, d);
    let fuel = (e.len() + 2) as nat;
    let p1 = 1int;
    let q1 = p1 + m1.len();
    let p2 = q1 + 1;
    let q2 = p2 + m2.len();
    let p4 = q2 + 1;
    let q4 = p4 + m4.len();
    lemma_member_layout(e, p1, jk, enc_string(jsonrpc));
    lemma_member_layout(e, p2, mk, enc_string(name));
    lemma_member_layout(e, p4, ik, d);
    let a1 = p1 + enc_string(jk).len() + 1;
    let a2 = p2 + enc_string(mk).len() + 1;
    let a4 = p4 + enc_string(ik).len() + 1;
    lemma_member_head(jk, enc_string(jsonrpc));
    lemma_member_head(mk, enc_string(name));
    lemma_member_head(ik, d);
    assert(e[p1] == 0x22) by {
        assert(e.subrange(p1, p1 + m1.len())[0] == m1[0]);
    }
    assert(e[p2] == 0x22) by {
        assert(e.subrange(p2, p2 + m2.len())[0] == m2[0]);
    }
    assert(e[p4] == 0x22) by {
        assert(e.subrange(p4, p4 + m4.len())[0] == m4[0]);
    }
    lemma_skip_enc_string(e, a1, jsonrpc, (fuel - 1) as nat);
    lemma_skip_enc_string(e, a2, name, (fuel - 2) as nat);
    crate::utils::lemma_dec_len(id as u64);
    assert(!crate::json::is_num_byte(e[q4]));
    assert(e.subrange(a4, a4 + d.len()) == d);
    lemma_skip_dec(e, a4, id, (fuel - 3) as nat);
    assert(!crate::json::is_ws(e[a1])) by {
        assert(e.subrange(a1, a1 + enc_string(jsonrpc).len())[0] == enc_string(jsonrpc)[0]);
        assert(((seq![0x22u8] + esc(jsonrpc)) + seq![0x22u8])[0] == (seq![0x22u8] + esc(
            jsonrpc,
        ))[0]);
        assert((seq![0x22u8] + esc(jsonrpc))[0] == 0x22);
    }
    assert(!crate::json::is_ws(e[a2])) by {
        assert(e.subrange(a2, a2 + enc_string(name).len())[0] == enc_string(name)[0]);
        assert(((seq![0x22u8] + esc(name)) + seq![0x22u8])[0] == (seq![0x22u8] + esc(name))[0]);
        assert((seq![0x22u8] + esc(name))[0] == 0x22);
    }
    assert(!crate::json::is_ws(e[a4])) by {
        assert(e.subrange(a4, a4 + d.len())[0] == d[0]);
        crate::json::lemma_dec_all_digits(id as u64, 0);
    }
    lemma_member_step(e, p4, ik, d.len() as int, (fuel - 2) as nat, true);
    lemma_member_step(e, p2, mk, enc_string(name).len() as int, (fuel - 1) as nat, false);
    lemma_member_step(e, p1, jk, enc_string(jsonrpc).len() as int, fuel, false);
    let ms = seq![(jk, (a1, q1))] + (seq![(mk, (a2, q2))] + seq![(ik, (a4, q4))]);
    assert(crate::envelope::parse_members_spec(e, 1, fuel) == Some((ms, q4 + 1)));
    assert(ms =~= seq![(jk, (a1, q1)), (mk, (a2, q2)), (ik, (a4, q4))]);
    lemma_parse_str_at(e, a1, jsonrpc);
    lemma_parse_str_at(e, a2, name);
    crate::json::lemma_parse_u16_dec(e, a4, id);
}

/// The round trip of a request with parameters.
#[verifier::rlimit(100)]
#[verifier::spinoff_prover]
proof fn lemma_roundtrip_method_param_id(
    jsonrpc: Seq<u8>,
    method: MoonrakerMethod,
    params: ParamV,
    id: u16,
)
    requires
        !(params is Raw),
    ensures
        crate::envelope::decode_spec(
            enc_envelope(crate::envelope::MsgV::MethodParamId { jsonrpc, method, params, id }),
        ) == Ok::<crate::envelope::MsgV, crate::envelope::DecodeError>(
            crate::envelope::MsgV::MethodParamId { jsonrpc, method, params, id },
        ),
{
    let m = crate::envelope::MsgV::MethodParamId { jsonrpc, method, params, id };
    let e = enc_envelope(m);
    let jk = "jsonrpc".spec_bytes();
    let mk = "method".spec_bytes();
    let pk = "params".spec_bytes();
    let ik = "id".spec_bytes();
    let name = method_name_spec(method);
    let d = crate::utils::dec_u64(id as u64);
    let ep = enc_params(params);
    let m1 = enc_member(jk, enc_string(jsonrpc));
    let m2 = enc_member(mk, enc_string(name));
    let m3 = enc_member(pk, ep);
    let m4 = enc_member(ik, d);
    let fuel = (e.len() + 2) as nat;
    assert(e == seq![0x7bu8] + m1 + seq![0x2cu8] + m2 + seq![0x2cu8] + m3 + seq![0x2cu8] + m4
        + seq![0x7du8]);
    lemma_envelope_split4(e, m1, m2, m3, m4);
    lemma_ready4(e, jsonrpc, name, params, id);
    let l1 = enc_string(jsonrpc).len() as int;
    let l2 = enc_string(name).len() as int;
    let l3 = ep.len() as int;
    let l4 = d.len() as int;
    lemma_steps4(e, 1, jk, l1, mk, l2, pk, l3, ik, l4, fuel);
    let a1 = 1 + enc_string(jk).len() as int + 1;
    let q1 = a1 + l1;
    let a2 = q1 + 1 + enc_string(mk).len() as int + 1;
    let q2 = a2 + l2;
    let a3 = q2 + 1 + enc_string(pk).len() as int + 1;
    let q3 = a3 + l3;
    let a4 = q3 + 1 + enc_string(ik).len() as int + 1;
    let q4 = a4 + l4;
    let msf = seq![(jk, (a1, q1)), (mk, (a2, q2)), (pk, (a3, q3)), (ik, (a4, q4))];
    assert(seq![(jk, (a1, q1))] + (seq![(mk, (a2, q2))] + (seq![(pk, (a3, q3))] + seq![
        (ik, (a4, q4)),
    ])) =~= msf);
    assert(q4 + 1 == e.len());
    lemma_member_layout(e, 1, jk, enc_string(jsonrpc));
    lemma_member_layout(e, q1 + 1, mk, enc_string(name));
    lemma_member_layout(e, q2 + 1, pk, ep);
    lemma_member_layout(e, q3 + 1, ik, d);
    lemma_parse_str_at(e, a1, jsonrpc);
    lemma_parse_str_at(e, a2, name);
    assert(e.subrange(a3, q3) == ep);
    lemma_params_roundtrip(params);
    assert(!crate::json::is_digit(e[q4]));
    crate::json::lemma_parse_u16_dec(e, a4, id);
    lemma_decode_members_4(e, jsonrpc, method, params, id, a1, q1, a2, q2, a3, q3, a4, q4);
    assert(e[1] == 0x22) by {
        lemma_member_head(jk, enc_string(jsonrpc));
        assert(e.subrange(1, 1 + m1.len() as int)[0] == m1[0]);
    }
    lemma_assemble(e, msf, m);
}

/// Assembling the decoder over facts already established: a brace-opened
/// buffer whose member scan and member reading are known decodes to that
/// reading.
#[verifier::rlimit(100)]
#[verifier::spinoff_prover]
proof fn lemma_assemble(e: Seq<u8>, ms: Seq<(Seq<u8>, (int, int))>, m: crate::envelope::MsgV)
    requires
        e.len() >= 2,
        e[0] == 0x7b,
        e[1] == 0x22,
        crate::envelope::parse_members_spec(e, 1, (e.len() + 2) as nat) == Some(
            (ms, e.len() as int),
        ),
        crate::envelope::decode_members_spec(e, ms) == Ok::<
            crate::envelope::MsgV,
            crate::envelope::DecodeError,
        >(m),
    ensures
        crate::envelope::decode_spec(e) == Ok::<
            crate::envelope::MsgV,
            crate::envelope::DecodeError,
        >(m),
{
    lemma_no_ws(e, 0);
    lemma_no_ws(e, 1);
    assert(crate::json::skip_ws_spec(e, 0) == 0);
    assert(crate::json::skip_ws_spec(e, 1) == 1);
    assert(crate::json::skip_ws_spec(e, e.len() as int) == e.len());
}

/// The round trip of a request without parameters.
#[verifier::rlimit(100)]
#[verifier::spinoff_prover]
proof fn lemma_roundtrip_method_id(jsonrpc: Seq<u8>, method: MoonrakerMethod, id: u16)
    ensures
        crate::envelope::decode_spec(
            enc_envelope(crate::envelope::MsgV::MethodId { jsonrpc, method, id }),
        ) == Ok::<crate::envelope::MsgV, crate::envelope::DecodeError>(
            crate::envelope::MsgV::MethodId { jsonrpc, method, id },
        ),
{
    let m = crate::envelope::MsgV::MethodId { jsonrpc, method, id };
    let e = enc_envelope(m);
    let jk = "jsonrpc".spec_bytes();
    let mk = "method".spec_bytes();
    let ik = "id".spec_bytes();
    let fuel = (e.len() + 2) as nat;
    let name = method_name_spec(method);
    let d = crate::utils::dec_u64(id as u64);
    let m1 = enc_member(jk, enc_string(jsonrpc));
    let m2 = enc_member(mk, enc_string(name));
    let m4 = enc_member(ik, d);
    assert(e == seq![0x7bu8] + m1 + seq![0x2cu8] + m2 + seq![0x2cu8] + m4 + seq![0x7du8]);
    let p1 = 1int;
    let q1 = p1 + m1.len();
    let p2 = q1 + 1;
    let q2 = p2 + m2.len();
    let p4 = q2 + 1;
    let q4 = p4 + m4.len();
    lemma_envelope_split3(e, m1, m2, m4);
    let q1 = p1 + m1.len() as int;
    let q2 = q1 + 1 + m2.len() as int;
    let q4 = q2 + 1 + m4.len() as int;
    let a1 = 1 + enc_string(jk).len() as int + 1;
    let a2 = q1 + 1 + enc_string(mk).len() as int + 1;
    let a4 = q2 + 1 + enc_string(ik).len() as int + 1;
    lemma_scan3(e, jsonrpc, name, id);
    lemma_decode_members_3(e, jsonrpc, method, id, a1, q1, a2, q2, a4, q4);
    lemma_assemble(
        e,
        seq![(jk, (a1, q1)), (mk, (a2, q2)), (ik, (a4, q4))],
        crate::envelope::MsgV::MethodId { jsonrpc, method, id },
    );
}

} // verus!
