//! The persisted configuration document: an object holding the API
//! key.  The writer emits the pretty-printed form; the reader accepts
//! the object with its members in any order, unknown members skipped,
//! any whitespace between tokens, and the standard string escapes.
//! Reading the file and resolving its path stay with the caller; here
//! the text itself is rendered and parsed.

use vstd::prelude::*;
use vstd::string::{StrSliceExecFns, StringExecFns};
use crate::codec::opt_str_view;
use crate::json::{
    escape_of, escape_text, is_json_ws, lemma_escape_of_plain, lemma_sp_ws_step,
    lemma_str_body_of_escaped, parse_char_tok, parse_string, scan_ws, skip_value, sp_char_tok,
    sp_skip_value, sp_string, sp_ws, str_eq,
};

verus! {

/// The configuration document the writer stores for one API key.
pub open spec fn config_text_of(key: Seq<char>) -> Seq<char> {
    "{\n  \"api_key\": \""@ + escape_of(key) + "\"\n}"@
}

/// Renders the configuration document for one API key.
pub fn save_api_key(api_key: &str) -> (r: String)
    ensures
        r@ == config_text_of(api_key@),
{
    let mut out = String::from_str("{\n  \"api_key\": \"");
    let escaped = escape_text(api_key);
    out.append(escaped.as_str());
    out.append("\"\n}");
    out
}

/// One member's effect on the stored key: `api_key` fills the slot
/// exactly once, any other member's value is skipped.
pub open spec fn sp_config_member_value(
    s: Seq<char>,
    i: int,
    acc: Option<Seq<char>>,
    key: Seq<char>,
) -> Option<(Option<Seq<char>>, int)>
    recommends
        0 <= i <= s.len(),
{
    if key == "api_key"@ {
        if acc is Some {
            None
        } else {
            match sp_string(s, i) {
                Some(v) => Some((Some(v.0), v.1)),
                None => None,
            }
        }
    } else {
        match sp_skip_value(s, i) {
            Some(e) => Some((acc, e)),
            None => None,
        }
    }
}

/// The members of the configuration object, in any order.
pub open spec fn sp_config_members(
    s: Seq<char>,
    i: int,
    acc: Option<Seq<char>>,
) -> Option<(Option<Seq<char>>, int)>
    decreases s.len() - i when 0 <= i <= s.len()
{
    match sp_string(s, i) {
        Some(key) => if i < key.1 <= s.len() {
            match sp_char_tok(s, key.1, ':') {
                Some(c) => if key.1 < c <= s.len() {
                    match sp_config_member_value(s, c, acc, key.0) {
                        Some(st) => if c <= st.1 <= s.len() {
                            match sp_char_tok(s, st.1, ',') {
                                Some(j) => if st.1 < j <= s.len() {
                                    sp_config_members(s, j, st.0)
                                } else {
                                    None
                                },
                                None => Some((st.0, st.1)),
                            }
                        } else {
                            None
                        },
                        None => None,
                    }
                } else {
                    None
                },
                None => None,
            }
        } else {
            None
        },
        None => None,
    }
}

/// The key a configuration document holds: an object whose `api_key`
/// member stands exactly once.
pub open spec fn parse_config_spec(s: Seq<char>) -> Option<Seq<char>> {
    match sp_char_tok(s, 0, '{') {
        Some(j) => match sp_config_members(s, j, None::<Seq<char>>) {
            Some(fin) => match sp_char_tok(s, fin.1, '}') {
                Some(m) => if sp_ws(s, m) == s.len() {
                    fin.0
                } else {
                    None
                },
                None => None,
            },
            None => None,
        },
        None => None,
    }
}

/// Law: a stored key is read back exactly — parsing the rendered
/// document yields the very key that was saved, whatever it holds.
pub proof fn lemma_config_round_trip(key: Seq<char>)
    ensures
        parse_config_spec(config_text_of(key)) == Some(key),
{
    reveal_strlit("{\n  \"api_key\": \"");
    reveal_strlit("api_key");
    reveal_strlit("\"\n}");
    let doc = config_text_of(key);
    let e = escape_of(key);
    let pre = "{\n  \"api_key\": \""@;
    let tail = "\"\n}"@;
    assert(doc =~= pre + e + tail);
    assert(pre.len() == 16);
    assert(tail.len() == 3);
    // the opening brace
    assert(!is_json_ws(doc[0]));
    assert(sp_ws(doc, 0) == 0);
    assert(doc[0] == '{');
    assert(sp_char_tok(doc, 0, '{') == Some(1int));
    // the key and its colon
    assert(is_json_ws(doc[1]) && is_json_ws(doc[2]) && is_json_ws(doc[3]));
    lemma_sp_ws_step(doc, 1, 4);
    assert(!is_json_ws(doc[4]));
    assert(sp_ws(doc, 1) == 4);
    assert(doc[4] == '"');
    let kq = "api_key"@;
    assert(kq.len() == 7);
    assert forall|t: int| 0 <= t < kq.len() implies kq[t] != '"' && kq[t] != '\\' && (kq[t]
        as u32) >= 0x20 by {
        if t == 0 {
            assert(kq[0] == 'a');
        } else if t == 1 {
            assert(kq[1] == 'p');
        } else if t == 2 {
            assert(kq[2] == 'i');
        } else if t == 3 {
            assert(kq[3] == '_');
        } else if t == 4 {
            assert(kq[4] == 'k');
        } else if t == 5 {
            assert(kq[5] == 'e');
        } else {
            assert(kq[6] == 'y');
        }
    }
    lemma_escape_of_plain(kq);
    assert(doc.subrange(5, 12) =~= kq);
    assert(doc[12] == '"');
    lemma_str_body_of_escaped(doc, 5, kq);
    assert(sp_string(doc, 1) == Some((kq, 13int)));
    assert(!is_json_ws(doc[13]));
    assert(sp_ws(doc, 13) == 13);
    assert(doc[13] == ':');
    assert(sp_char_tok(doc, 13, ':') == Some(14int));
    // the key's value
    assert(is_json_ws(doc[14]));
    lemma_sp_ws_step(doc, 14, 15);
    assert(!is_json_ws(doc[15]));
    assert(sp_ws(doc, 14) == 15);
    assert(doc[15] == '"');
    assert(doc.subrange(16, 16 + e.len() as int) =~= e) by {
        assert forall|t: int| 0 <= t < e.len() implies doc[16 + t] == e[t] by {
            assert((pre + e + tail)[16 + t] == e[t]);
        }
    }
    assert(doc[16 + e.len() as int] == '"');
    lemma_str_body_of_escaped(doc, 16, key);
    let q = 17 + e.len() as int;
    assert(sp_string(doc, 14) == Some((key, q)));
    assert(sp_config_member_value(doc, 14, None::<Seq<char>>, kq) == Some((Some(key), q)));
    // no comma follows, so the member list ends before the brace
    assert(is_json_ws(doc[q]));
    lemma_sp_ws_step(doc, q, q + 1);
    assert(!is_json_ws(doc[q + 1]));
    assert(sp_ws(doc, q) == q + 1);
    assert(doc[q + 1] == '}');
    assert(sp_char_tok(doc, q, ',') is None);
    assert(sp_config_members(doc, 1, None::<Seq<char>>) == Some((Some(key), q)));
    assert(sp_char_tok(doc, q, '}') == Some(q + 2int));
    assert(sp_ws(doc, q + 2) == q + 2);
    assert(q + 2 == doc.len());
}

fn parse_config_member_value(
    text: &str,
    n: usize,
    i: usize,
    acc: Option<String>,
    key: &str,
) -> (r: Option<(Option<String>, usize)>)
    requires
        n == text@.len(),
        i <= n,
    ensures
        match r {
            Some(p) => sp_config_member_value(text@, i as int, opt_str_view(acc), key@) == Some((
                opt_str_view(p.0),
                p.1 as int,
            )) && i <= p.1 <= n,
            None => sp_config_member_value(text@, i as int, opt_str_view(acc), key@) is None,
        },
{
    if str_eq(key, "api_key") {
        if acc.is_some() {
            None
        } else {
            match parse_string(text, n, i) {
                Some((v, e)) => Some((Some(v), e)),
                None => None,
            }
        }
    } else {
        match skip_value(text, n, i) {
            Some(e) => Some((acc, e)),
            None => None,
        }
    }
}

fn parse_config_members(text: &str, n: usize, i: usize, acc: Option<String>) -> (r: Option<
    (Option<String>, usize),
>)
    requires
        n == text@.len(),
        i <= n,
    ensures
        match r {
            Some(p) => sp_config_members(text@, i as int, opt_str_view(acc)) == Some((
                opt_str_view(p.0),
                p.1 as int,
            )) && i < p.1 <= n,
            None => sp_config_members(text@, i as int, opt_str_view(acc)) is None,
        },
    decreases n - i,
{
    match parse_string(text, n, i) {
        Some((key, kpos)) => match parse_char_tok(text, n, kpos, ':') {
            Some(c) => match parse_config_member_value(text, n, c, acc, key.as_str()) {
                Some((acc2, e)) => match parse_char_tok(text, n, e, ',') {
                    Some(j) => parse_config_members(text, n, j, acc2),
                    None => Some((acc2, e)),
                },
                None => None,
            },
            None => None,
        },
        None => None,
    }
}

/// Reads the API key out of a configuration document.
pub fn load_api_key(text: &str) -> (r: Result<String, String>)
    ensures
        match parse_config_spec(text@) {
            Some(k) => r matches Ok(s) && s@ == k,
            None => r matches Err(e) && e@ == "failed to deserialize config"@,
        },
{
    let n = text.unicode_len();
    match parse_char_tok(text, n, 0, '{') {
        Some(j) => match parse_config_members(text, n, j, None) {
            Some((acc, e)) => match parse_char_tok(text, n, e, '}') {
                Some(m) => {
                    if scan_ws(text, n, m) == n {
                        match acc {
                            Some(k) => Ok(k),
                            None => Err(String::from_str("failed to deserialize config")),
                        }
                    } else {
                        Err(String::from_str("failed to deserialize config"))
                    }
                },
                None => Err(String::from_str("failed to deserialize config")),
            },
            None => Err(String::from_str("failed to deserialize config")),
        },
        None => Err(String::from_str("failed to deserialize config")),
    }
}

} // verus!
