//! A verified parser for the JSON bodies of the two permission probes.
//!
//! Each probe returns an object with a `value` member holding the list. A
//! subscription entry carries a `subscriptionId` string and an optional
//! `displayName` (a string, or `null`); a resource-group entry carries a
//! `name` and a `location` string. As in any JSON object, the members of
//! an object may come in any order, and members other than the ones named
//! above are skipped: an unknown member's value may be any balanced run of
//! text (nested objects, arrays, strings, numbers, words). Whitespace may
//! appear between tokens. Strings decode the single-character escapes
//! (`\"`, `\\`, `\/`, `\b`, `\f`, `\n`, `\r`, `\t`); a `\u` escape is not
//! decoded and makes the body undecodable. A required member that is
//! missing, of the wrong shape, or repeated makes the entry undecodable.
//!
//! The grammar is written as specification functions over `Seq<char>` with
//! an input position; the executable parser is proved to return exactly
//! what the grammar derives.

use crate::entities::{
    ResourceGroup, ResourceGroupModel, Subscription, SubscriptionModel, resource_group_models,
    subscription_models,
};
use vstd::prelude::*;
use vstd::string::StrSliceExecFns;
use vstd::string::StringExecFns;

verus! {

/// The characters accepted as insignificant whitespace between tokens.
pub open spec fn is_ws_char(c: char) -> bool {
    c == ' ' || c == '\n' || c == '\t' || c == '\r'
}

/// The position of the first non-whitespace character at or after `i`
/// (or the end of the input).
pub open spec fn ws_end(s: Seq<char>, i: int) -> int
    decreases s.len() - i,
{
    if 0 <= i < s.len() && is_ws_char(s[i]) {
        ws_end(s, i + 1)
    } else {
        i
    }
}

/// The character `c` stands at position `i`.
pub open spec fn at_char(s: Seq<char>, i: int, c: char) -> bool {
    0 <= i < s.len() && s[i] == c
}

/// The literal `lit` stands verbatim at position `i`.
pub open spec fn lit_at(s: Seq<char>, i: int, lit: Seq<char>) -> bool {
    0 <= i && i + lit.len() <= s.len() && s.subrange(i, i + lit.len()) == lit
}

/// What a single-character escape stands for, or `None` where the
/// character after the backslash is not one of the eight JSON escapes.
pub open spec fn unescape(c: char) -> Option<char> {
    if c == '"' {
        Some('"')
    } else if c == '\\' {
        Some('\\')
    } else if c == '/' {
        Some('/')
    } else if c == 'b' {
        Some('\u{8}')
    } else if c == 'f' {
        Some('\u{c}')
    } else if c == 'n' {
        Some('\n')
    } else if c == 'r' {
        Some('\r')
    } else if c == 't' {
        Some('\t')
    } else {
        None
    }
}

/// The rest of a string starting just inside its quotes: the decoded
/// characters up to the closing quote, and the position just after it.
pub open spec fn string_tail(s: Seq<char>, i: int) -> Option<(Seq<char>, int)>
    decreases s.len() - i,
{
    if i < 0 || i >= s.len() {
        None
    } else if s[i] == '"' {
        Some((Seq::empty(), i + 1))
    } else if s[i] == '\\' {
        if i + 1 < s.len() {
            match unescape(s[i + 1]) {
                Some(c) => match string_tail(s, i + 2) {
                    Some(v) => Some((seq![c] + v.0, v.1)),
                    None => None,
                },
                None => None,
            }
        } else {
            None
        }
    } else {
        match string_tail(s, i + 1) {
            Some(v) => Some((seq![s[i]] + v.0, v.1)),
            None => None,
        }
    }
}

/// A quoted string at position `i`: its decoded value and the position
/// just after the closing quote.
pub open spec fn string_token(s: Seq<char>, i: int) -> Option<(Seq<char>, int)> {
    if at_char(s, i, '"') {
        string_tail(s, i + 1)
    } else {
        None
    }
}

/// The end of an unknown member's value that starts at `i` inside an
/// object: the position of the first `,` or `}` outside every nested
/// bracket and string, which separates or closes the surrounding object.
/// The value itself may be any balanced run of text.
pub open spec fn member_value_end(s: Seq<char>, i: int, depth: int) -> Option<int>
    decreases s.len() - i,
{
    if i < 0 || i >= s.len() {
        None
    } else if depth == 0 && (s[i] == ',' || s[i] == '}') {
        Some(i)
    } else if s[i] == '{' || s[i] == '[' {
        member_value_end(s, i + 1, depth + 1)
    } else if s[i] == '}' || s[i] == ']' {
        if depth > 0 {
            member_value_end(s, i + 1, depth - 1)
        } else {
            None
        }
    } else if s[i] == '"' {
        match string_token(s, i) {
            Some(v) => if i < v.1 && v.1 <= s.len() {
                member_value_end(s, v.1, depth)
            } else {
                None
            },
            None => None,
        }
    } else {
        member_value_end(s, i + 1, depth)
    }
}

/// The name of the subscription-id member.
pub open spec fn field_subscription_id() -> Seq<char> {
    "subscriptionId"@
}

/// The name of the display-name member.
pub open spec fn field_display_name() -> Seq<char> {
    "displayName"@
}

/// The name of the resource-group-name member.
pub open spec fn field_group_name() -> Seq<char> {
    "name"@
}

/// The name of the location member.
pub open spec fn field_location() -> Seq<char> {
    "location"@
}

/// The name of the list member that both probe bodies carry.
pub open spec fn field_value() -> Seq<char> {
    "value"@
}

/// The word that stands for a missing value.
pub open spec fn null_text() -> Seq<char> {
    "null"@
}

/// The view of an optional owned string.
pub open spec fn opt_text(o: Option<String>) -> Option<Seq<char>> {
    match o {
        Some(x) => Some(x@),
        None => None,
    }
}

/// The members of a subscription entry from position `i` (at a member
/// key) to the closing brace. `id`, `dn_seen` and `dn` carry what earlier
/// members established: the subscription id, whether a display name
/// member was seen, and its value. A repeated named member, a named
/// member of the wrong shape, or a missing subscription id is an error;
/// unknown members are skipped.
pub open spec fn subscription_fields(
    s: Seq<char>,
    i: int,
    id: Option<Seq<char>>,
    dn_seen: bool,
    dn: Option<Seq<char>>,
) -> Option<(SubscriptionModel, int)>
    decreases s.len() - i,
{
    match string_token(s, i) {
        None => None,
        Some(key) => {
            let k = ws_end(s, key.1);
            if !at_char(s, k, ':') {
                None
            } else {
                let k2 = ws_end(s, k + 1);
                let step: Option<(Option<Seq<char>>, bool, Option<Seq<char>>, int)> = if key.0
                    == field_subscription_id() {
                    if id is Some {
                        None
                    } else {
                        match string_token(s, k2) {
                            None => None,
                            Some(v) => Some((Some(v.0), dn_seen, dn, ws_end(s, v.1))),
                        }
                    }
                } else if key.0 == field_display_name() {
                    if dn_seen {
                        None
                    } else if lit_at(s, k2, null_text()) {
                        Some((id, true, dn, ws_end(s, k2 + null_text().len())))
                    } else {
                        match string_token(s, k2) {
                            None => None,
                            Some(v) => Some((id, true, Some(v.0), ws_end(s, v.1))),
                        }
                    }
                } else {
                    match member_value_end(s, k2, 0) {
                        None => None,
                        Some(j2) => Some((id, dn_seen, dn, j2)),
                    }
                };
                match step {
                    None => None,
                    Some(st) => {
                        if at_char(s, st.3, '}') {
                            match st.0 {
                                Some(idv) => Some(
                                    (
                                        SubscriptionModel {
                                            subscription_id: idv,
                                            display_name: st.2,
                                        },
                                        st.3 + 1,
                                    ),
                                ),
                                None => None,
                            }
                        } else if at_char(s, st.3, ',') {
                            let nx = ws_end(s, st.3 + 1);
                            if i < nx && nx <= s.len() {
                                subscription_fields(s, nx, st.0, st.1, st.2)
                            } else {
                                None
                            }
                        } else {
                            None
                        }
                    },
                }
            }
        },
    }
}

/// The members of a resource-group entry from position `i` (at a member
/// key) to the closing brace. Both the name and the location must appear,
/// each once, as strings; unknown members are skipped.
pub open spec fn resource_group_fields(
    s: Seq<char>,
    i: int,
    name: Option<Seq<char>>,
    loc: Option<Seq<char>>,
) -> Option<(ResourceGroupModel, int)>
    decreases s.len() - i,
{
    match string_token(s, i) {
        None => None,
        Some(key) => {
            let k = ws_end(s, key.1);
            if !at_char(s, k, ':') {
                None
            } else {
                let k2 = ws_end(s, k + 1);
                let step: Option<(Option<Seq<char>>, Option<Seq<char>>, int)> = if key.0
                    == field_group_name() {
                    if name is Some {
                        None
                    } else {
                        match string_token(s, k2) {
                            None => None,
                            Some(v) => Some((Some(v.0), loc, ws_end(s, v.1))),
                        }
                    }
                } else if key.0 == field_location() {
                    if loc is Some {
                        None
                    } else {
                        match string_token(s, k2) {
                            None => None,
                            Some(v) => Some((name, Some(v.0), ws_end(s, v.1))),
                        }
                    }
                } else {
                    match member_value_end(s, k2, 0) {
                        None => None,
                        Some(j2) => Some((name, loc, j2)),
                    }
                };
                match step {
                    None => None,
                    Some(st) => {
                        if at_char(s, st.2, '}') {
                            match (st.0, st.1) {
                                (Some(n), Some(l)) => Some(
                                    (ResourceGroupModel { name: n, location: l }, st.2 + 1),
                                ),
                                _ => None,
                            }
                        } else if at_char(s, st.2, ',') {
                            let nx = ws_end(s, st.2 + 1);
                            if i < nx && nx <= s.len() {
                                resource_group_fields(s, nx, st.0, st.1)
                            } else {
                                None
                            }
                        } else {
                            None
                        }
                    },
                }
            }
        },
    }
}

/// A subscription entry at position `i`: an object whose members, in any
/// order, include the subscription id.
pub open spec fn subscription_at(s: Seq<char>, i: int) -> Option<(SubscriptionModel, int)> {
    if !at_char(s, i, '{') {
        None
    } else {
        let k = ws_end(s, i + 1);
        if at_char(s, k, '}') {
            None
        } else {
            subscription_fields(s, k, None, false, None)
        }
    }
}

/// A resource-group entry at position `i`: an object whose members, in
/// any order, include the name and the location.
pub open spec fn resource_group_at(s: Seq<char>, i: int) -> Option<(ResourceGroupModel, int)> {
    if !at_char(s, i, '{') {
        None
    } else {
        let k = ws_end(s, i + 1);
        if at_char(s, k, '}') {
            None
        } else {
            resource_group_fields(s, k, None, None)
        }
    }
}

/// One or more comma-separated subscription entries at position `i`,
/// terminated by the closing bracket of the array: the entries in order
/// and the position just after the bracket.
pub open spec fn subscription_items(s: Seq<char>, i: int) -> Option<(Seq<SubscriptionModel>, int)>
    decreases s.len() - i,
{
    match subscription_at(s, i) {
        None => None,
        Some((m, j)) => {
            let k = ws_end(s, j);
            if at_char(s, k, ']') {
                Some((seq![m], k + 1))
            } else if at_char(s, k, ',') {
                let k2 = ws_end(s, k + 1);
                if i < k2 && k2 <= s.len() {
                    match subscription_items(s, k2) {
                        None => None,
                        Some((rest, e)) => Some((seq![m] + rest, e)),
                    }
                } else {
                    None
                }
            } else {
                None
            }
        },
    }
}

/// One or more comma-separated resource-group entries at position `i`,
/// terminated by the closing bracket of the array.
pub open spec fn resource_group_items(s: Seq<char>, i: int) -> Option<
    (Seq<ResourceGroupModel>, int),
>
    decreases s.len() - i,
{
    match resource_group_at(s, i) {
        None => None,
        Some((m, j)) => {
            let k = ws_end(s, j);
            if at_char(s, k, ']') {
                Some((seq![m], k + 1))
            } else if at_char(s, k, ',') {
                let k2 = ws_end(s, k + 1);
                if i < k2 && k2 <= s.len() {
                    match resource_group_items(s, k2) {
                        None => None,
                        Some((rest, e)) => Some((seq![m] + rest, e)),
                    }
                } else {
                    None
                }
            } else {
                None
            }
        },
    }
}

/// A subscription array at position `i`: `[]` or `[ entry, ... ]`.
pub open spec fn subscription_array(s: Seq<char>, i: int) -> Option<(Seq<SubscriptionModel>, int)> {
    if !at_char(s, i, '[') {
        None
    } else {
        let k = ws_end(s, i + 1);
        if at_char(s, k, ']') {
            Some((Seq::empty(), k + 1))
        } else {
            subscription_items(s, k)
        }
    }
}

/// A resource-group array at position `i`.
pub open spec fn resource_group_array(s: Seq<char>, i: int) -> Option<
    (Seq<ResourceGroupModel>, int),
> {
    if !at_char(s, i, '[') {
        None
    } else {
        let k = ws_end(s, i + 1);
        if at_char(s, k, ']') {
            Some((Seq::empty(), k + 1))
        } else {
            resource_group_items(s, k)
        }
    }
}

/// The members of the top-level response object from position `i` (at a
/// member key) to the closing brace. The `value` member must appear once
/// and hold the entry array; members beside it are skipped.
pub open spec fn subscriptions_top_fields(
    s: Seq<char>,
    i: int,
    items: Option<Seq<SubscriptionModel>>,
) -> Option<(Seq<SubscriptionModel>, int)>
    decreases s.len() - i,
{
    match string_token(s, i) {
        None => None,
        Some(key) => {
            let k = ws_end(s, key.1);
            if !at_char(s, k, ':') {
                None
            } else {
                let k2 = ws_end(s, k + 1);
                let step: Option<(Option<Seq<SubscriptionModel>>, int)> = if key.0
                    == field_value() {
                    if items is Some {
                        None
                    } else {
                        match subscription_array(s, k2) {
                            None => None,
                            Some(v) => Some((Some(v.0), ws_end(s, v.1))),
                        }
                    }
                } else {
                    match member_value_end(s, k2, 0) {
                        None => None,
                        Some(j2) => Some((items, j2)),
                    }
                };
                match step {
                    None => None,
                    Some(st) => {
                        if at_char(s, st.1, '}') {
                            match st.0 {
                                Some(v) => Some((v, st.1 + 1)),
                                None => None,
                            }
                        } else if at_char(s, st.1, ',') {
                            let nx = ws_end(s, st.1 + 1);
                            if i < nx && nx <= s.len() {
                                subscriptions_top_fields(s, nx, st.0)
                            } else {
                                None
                            }
                        } else {
                            None
                        }
                    },
                }
            }
        },
    }
}

/// The members of the top-level resource-group response object.
pub open spec fn resource_groups_top_fields(
    s: Seq<char>,
    i: int,
    items: Option<Seq<ResourceGroupModel>>,
) -> Option<(Seq<ResourceGroupModel>, int)>
    decreases s.len() - i,
{
    match string_token(s, i) {
        None => None,
        Some(key) => {
            let k = ws_end(s, key.1);
            if !at_char(s, k, ':') {
                None
            } else {
                let k2 = ws_end(s, k + 1);
                let step: Option<(Option<Seq<ResourceGroupModel>>, int)> = if key.0
                    == field_value() {
                    if items is Some {
                        None
                    } else {
                        match resource_group_array(s, k2) {
                            None => None,
                            Some(v) => Some((Some(v.0), ws_end(s, v.1))),
                        }
                    }
                } else {
                    match member_value_end(s, k2, 0) {
                        None => None,
                        Some(j2) => Some((items, j2)),
                    }
                };
                match step {
                    None => None,
                    Some(st) => {
                        if at_char(s, st.1, '}') {
                            match st.0 {
                                Some(v) => Some((v, st.1 + 1)),
                                None => None,
                            }
                        } else if at_char(s, st.1, ',') {
                            let nx = ws_end(s, st.1 + 1);
                            if i < nx && nx <= s.len() {
                                resource_groups_top_fields(s, nx, st.0)
                            } else {
                                None
                            }
                        } else {
                            None
                        }
                    },
                }
            }
        },
    }
}

/// A whole subscriptions response body: an object whose members, in any
/// order, include `value` holding the entry array, with nothing but
/// whitespace around it. The derived list, or `None` when the body does
/// not belong to the grammar.
pub open spec fn subscriptions_body(s: Seq<char>) -> Option<Seq<SubscriptionModel>> {
    let i = ws_end(s, 0);
    if !at_char(s, i, '{') {
        None
    } else {
        let k = ws_end(s, i + 1);
        match subscriptions_top_fields(s, k, None) {
            None => None,
            Some(v) => if ws_end(s, v.1) == s.len() {
                Some(v.0)
            } else {
                None
            },
        }
    }
}

/// A whole resource-groups response body.
pub open spec fn resource_groups_body(s: Seq<char>) -> Option<Seq<ResourceGroupModel>> {
    let i = ws_end(s, 0);
    if !at_char(s, i, '{') {
        None
    } else {
        let k = ws_end(s, i + 1);
        match resource_groups_top_fields(s, k, None) {
            None => None,
            Some(v) => if ws_end(s, v.1) == s.len() {
                Some(v.0)
            } else {
                None
            },
        }
    }
}

/// Scanning over characters that close no string and open no escape
/// keeps them as the undecoded prefix of the string's value.
proof fn lemma_string_tail_run(s: Seq<char>, a: int, b: int)
    requires
        0 <= a <= b <= s.len(),
        forall|k: int| a <= k < b ==> s[k] != '"' && s[k] != '\\',
    ensures
        match string_tail(s, b) {
            Some(v) => string_tail(s, a) == Some((s.subrange(a, b) + v.0, v.1)),
            None => string_tail(s, a) is None,
        },
    decreases b - a,
{
    if a == b {
        match string_tail(s, b) {
            Some(v) => {
                assert(s.subrange(a, b) + v.0 =~= v.0);
            },
            None => {},
        }
    } else {
        lemma_string_tail_run(s, a + 1, b);
        match string_tail(s, b) {
            Some(v) => {
                assert(seq![s[a]] + (s.subrange(a + 1, b) + v.0) =~= s.subrange(a, b) + v.0);
            },
            None => {},
        }
    }
}

/// One escape step extends the decoded prefix of a string by the decoded
/// character.
proof fn lemma_escape_step(
    s: Seq<char>,
    istart: int,
    run_start: int,
    cur: int,
    out0: Seq<char>,
    out_now: Seq<char>,
    d: char,
)
    requires
        0 <= istart <= run_start <= cur,
        cur + 1 < s.len(),
        forall|k: int| run_start <= k < cur ==> s[k] != '"' && s[k] != '\\',
        s[cur] == '\\',
        unescape(s[cur + 1]) == Some(d),
        out_now == out0 + s.subrange(run_start, cur) + seq![d],
        match string_tail(s, run_start) {
            Some(v) => string_tail(s, istart) == Some((out0 + v.0, v.1)),
            None => string_tail(s, istart) is None,
        },
    ensures
        match string_tail(s, cur + 2) {
            Some(v) => string_tail(s, istart) == Some((out_now + v.0, v.1)),
            None => string_tail(s, istart) is None,
        },
{
    lemma_string_tail_run(s, run_start, cur);
    let ru = s.subrange(run_start, cur);
    match string_tail(s, cur + 2) {
        Some(v) => {
            assert(string_tail(s, cur) == Some((seq![d] + v.0, v.1)));
            assert(ru + (seq![d] + v.0) =~= (ru + seq![d]) + v.0);
            assert(out0 + ((ru + seq![d]) + v.0) =~= (out0 + ru + seq![d]) + v.0);
        },
        None => {
            assert(string_tail(s, cur) is None);
        },
    }
}

fn char_is_ws(c: char) -> (b: bool)
    ensures
        b == is_ws_char(c),
{
    c == ' ' || c == '\n' || c == '\t' || c == '\r'
}

/// Advances past whitespace, computing `ws_end`.
fn skip_ws(s: &str, len: usize, i: usize) -> (r: usize)
    requires
        len == s@.len(),
        i <= len,
    ensures
        r == ws_end(s@, i as int),
        i <= r <= len,
{
    let mut cur: usize = i;
    while cur < len && char_is_ws(s.get_char(cur))
        invariant
            len == s@.len(),
            i <= cur <= len,
            ws_end(s@, i as int) == ws_end(s@, cur as int),
        decreases len - cur,
    {
        cur = cur + 1;
    }
    cur
}

/// Tests whether the literal `lit` stands verbatim at position `i`.
fn has_lit_at(s: &str, len: usize, i: usize, lit: &str, litlen: usize) -> (b: bool)
    requires
        len == s@.len(),
        i <= len,
        litlen == lit@.len(),
    ensures
        b == lit_at(s@, i as int, lit@),
{
    if litlen > len - i {
        return false;
    }
    let mut j: usize = 0;
    while j < litlen
        invariant
            len == s@.len(),
            litlen == lit@.len(),
            i + litlen <= len,
            j <= litlen,
            forall|jj: int| 0 <= jj < j ==> s@[i + jj] == lit@[jj],
        decreases litlen - j,
    {
        if s.get_char(i + j) != lit.get_char(j) {
            proof {
                assert(s@.subrange(i as int, i + litlen)[j as int] != lit@[j as int]);
            }
            return false;
        }
        j = j + 1;
    }
    proof {
        assert(s@.subrange(i as int, i + litlen) =~= lit@);
    }
    true
}

/// Tests whether the character `c` stands at position `i`.
fn has_char_at(s: &str, len: usize, i: usize, c: char) -> (b: bool)
    requires
        len == s@.len(),
        i <= len,
    ensures
        b == at_char(s@, i as int, c),
{
    i < len && s.get_char(i) == c
}

/// Compares an owned string against a literal.
fn text_eq(a: &String, lit: &str) -> (b: bool)
    ensures
        b == (a@ == lit@),
{
    let other = String::from_str(lit);
    *a == other
}

/// Reads a quoted string at position `i`, decoding escapes, computing
/// `string_token`.
fn read_string_token(s: &str, len: usize, i: usize) -> (r: Option<(String, usize)>)
    requires
        len == s@.len(),
        i <= len,
    ensures
        match r {
            Some(v) => string_token(s@, i as int) == Some((v.0@, v.1 as int)) && i < v.1 <= len,
            None => string_token(s@, i as int) is None,
        },
{
    if !has_char_at(s, len, i, '"') {
        return None;
    }
    let mut out = String::new();
    let mut run_start: usize = i + 1;
    let mut cur: usize = i + 1;
    loop
        invariant
            len == s@.len(),
            i + 1 <= run_start <= cur <= len,
            at_char(s@, i as int, '"'),
            forall|k: int| run_start <= k < cur ==> s@[k] != '"' && s@[k] != '\\',
            match string_tail(s@, run_start as int) {
                Some(v) => string_tail(s@, i + 1) == Some((out@ + v.0, v.1)),
                None => string_tail(s@, i + 1) is None,
            },
        decreases len - cur,
    {
        if cur == len {
            proof {
                lemma_string_tail_run(s@, run_start as int, cur as int);
            }
            return None;
        }
        let c = s.get_char(cur);
        if c == '"' {
            let ghost out0 = out@;
            let run = s.substring_char(run_start, cur);
            out.append(run);
            proof {
                lemma_string_tail_run(s@, run_start as int, cur as int);
                let ru = s@.subrange(run_start as int, cur as int);
                assert(string_tail(s@, cur as int) == Some((Seq::<char>::empty(), cur + 1)));
                assert(ru + Seq::<char>::empty() =~= ru);
                assert(out@ =~= out0 + ru);
            }
            return Some((out, cur + 1));
        } else if c == '\\' {
            if cur + 1 == len {
                proof {
                    lemma_string_tail_run(s@, run_start as int, cur as int);
                    assert(string_tail(s@, cur as int) is None);
                }
                return None;
            }
            let e = s.get_char(cur + 1);
            let ghost out0 = out@;
            let run = s.substring_char(run_start, cur);
            out.append(run);
            if e == '"' {
                out.append("\"");
                proof {
                    reveal_strlit("\"");
                    assert("\""@ =~= seq!['"']);
                    assert(out@ =~= out0 + s@.subrange(run_start as int, cur as int) + seq!['"']);
                    lemma_escape_step(s@, i + 1, run_start as int, cur as int, out0, out@, '"');
                }
            } else if e == '\\' {
                out.append("\\");
                proof {
                    reveal_strlit("\\");
                    assert("\\"@ =~= seq!['\\']);
                    assert(out@ =~= out0 + s@.subrange(run_start as int, cur as int) + seq!['\\']);
                    lemma_escape_step(s@, i + 1, run_start as int, cur as int, out0, out@, '\\');
                }
            } else if e == '/' {
                out.append("/");
                proof {
                    reveal_strlit("/");
                    assert("/"@ =~= seq!['/']);
                    assert(out@ =~= out0 + s@.subrange(run_start as int, cur as int) + seq!['/']);
                    lemma_escape_step(s@, i + 1, run_start as int, cur as int, out0, out@, '/');
                }
            } else if e == 'b' {
                out.append("\u{8}");
                proof {
                    reveal_strlit("\u{8}");
                    assert("\u{8}"@ =~= seq!['\u{8}']);
                    assert(out@ =~= out0 + s@.subrange(run_start as int, cur as int)
                        + seq!['\u{8}']);
                    lemma_escape_step(s@, i + 1, run_start as int, cur as int, out0, out@, '\u{8}');
                }
            } else if e == 'f' {
                out.append("\u{c}");
                proof {
                    reveal_strlit("\u{c}");
                    assert("\u{c}"@ =~= seq!['\u{c}']);
                    assert(out@ =~= out0 + s@.subrange(run_start as int, cur as int)
                        + seq!['\u{c}']);
                    lemma_escape_step(s@, i + 1, run_start as int, cur as int, out0, out@, '\u{c}');
                }
            } else if e == 'n' {
                out.append("\n");
                proof {
                    reveal_strlit("\n");
                    assert("\n"@ =~= seq!['\n']);
                    assert(out@ =~= out0 + s@.subrange(run_start as int, cur as int) + seq!['\n']);
                    lemma_escape_step(s@, i + 1, run_start as int, cur as int, out0, out@, '\n');
                }
            } else if e == 'r' {
                out.append("\r");
                proof {
                    reveal_strlit("\r");
                    assert("\r"@ =~= seq!['\r']);
                    assert(out@ =~= out0 + s@.subrange(run_start as int, cur as int) + seq!['\r']);
                    lemma_escape_step(s@, i + 1, run_start as int, cur as int, out0, out@, '\r');
                }
            } else if e == 't' {
                out.append("\t");
                proof {
                    reveal_strlit("\t");
                    assert("\t"@ =~= seq!['\t']);
                    assert(out@ =~= out0 + s@.subrange(run_start as int, cur as int) + seq!['\t']);
                    lemma_escape_step(s@, i + 1, run_start as int, cur as int, out0, out@, '\t');
                }
            } else {
                proof {
                    lemma_string_tail_run(s@, run_start as int, cur as int);
                    assert(unescape(s@[cur + 1]) is None);
                    assert(string_tail(s@, cur as int) is None);
                }
                return None;
            }
            cur = cur + 2;
            run_start = cur;
        } else {
            cur = cur + 1;
        }
    }
}

/// Scans past an unknown member's value, computing `member_value_end`.
fn skip_member_value(s: &str, len: usize, i: usize) -> (r: Option<usize>)
    requires
        len == s@.len(),
        i <= len,
    ensures
        match r {
            Some(j) => member_value_end(s@, i as int, 0) == Some(j as int) && i <= j < len,
            None => member_value_end(s@, i as int, 0) is None,
        },
{
    let mut cur: usize = i;
    let mut depth: usize = 0;
    loop
        invariant
            len == s@.len(),
            i <= cur <= len,
            depth <= cur - i,
            member_value_end(s@, i as int, 0) == member_value_end(s@, cur as int, depth as int),
        decreases len - cur,
    {
        if cur == len {
            return None;
        }
        let c = s.get_char(cur);
        if depth == 0 && (c == ',' || c == '}') {
            return Some(cur);
        }
        if c == '{' || c == '[' {
            depth = depth + 1;
            cur = cur + 1;
        } else if c == '}' || c == ']' {
            if depth > 0 {
                depth = depth - 1;
                cur = cur + 1;
            } else {
                return None;
            }
        } else if c == '"' {
            match read_string_token(s, len, cur) {
                None => {
                    return None;
                },
                Some((_, j)) => {
                    cur = j;
                },
            }
        } else {
            cur = cur + 1;
        }
    }
}

/// Reads the members of a subscription entry, computing
/// `subscription_fields`.
fn read_subscription_fields(
    s: &str,
    len: usize,
    i: usize,
    id: Option<String>,
    dn_seen: bool,
    dn: Option<String>,
) -> (r: Option<(Subscription, usize)>)
    requires
        len == s@.len(),
        i <= len,
    ensures
        match r {
            Some(v) => subscription_fields(s@, i as int, opt_text(id), dn_seen, opt_text(dn))
                == Some((v.0@, v.1 as int)) && i < v.1 <= len,
            None => subscription_fields(s@, i as int, opt_text(id), dn_seen, opt_text(dn)) is None,
        },
    decreases len - i,
{
    let key = match read_string_token(s, len, i) {
        None => {
            return None;
        },
        Some(v) => v,
    };
    let k = skip_ws(s, len, key.1);
    if !has_char_at(s, len, k, ':') {
        return None;
    }
    let k2 = skip_ws(s, len, k + 1);
    let step: Option<(Option<String>, bool, Option<String>, usize)> = if text_eq(
        &key.0,
        "subscriptionId",
    ) {
        if id.is_some() {
            None
        } else {
            match read_string_token(s, len, k2) {
                None => None,
                Some(v) => {
                    let sep = skip_ws(s, len, v.1);
                    Some((Some(v.0), dn_seen, dn, sep))
                },
            }
        }
    } else if text_eq(&key.0, "displayName") {
        let null_len = "null".unicode_len();
        if dn_seen {
            None
        } else if has_lit_at(s, len, k2, "null", null_len) {
            let sep = skip_ws(s, len, k2 + null_len);
            Some((id, true, dn, sep))
        } else {
            match read_string_token(s, len, k2) {
                None => None,
                Some(v) => {
                    let sep = skip_ws(s, len, v.1);
                    Some((id, true, Some(v.0), sep))
                },
            }
        }
    } else {
        match skip_member_value(s, len, k2) {
            None => None,
            Some(j2) => Some((id, dn_seen, dn, j2)),
        }
    };
    match step {
        None => None,
        Some((id2, seen2, dn2, sep)) => {
            if has_char_at(s, len, sep, '}') {
                match id2 {
                    Some(idv) => Some(
                        (Subscription { subscription_id: idv, display_name: dn2 }, sep + 1),
                    ),
                    None => None,
                }
            } else if has_char_at(s, len, sep, ',') {
                let nx = skip_ws(s, len, sep + 1);
                read_subscription_fields(s, len, nx, id2, seen2, dn2)
            } else {
                None
            }
        },
    }
}

/// Reads the members of a resource-group entry, computing
/// `resource_group_fields`.
fn read_resource_group_fields(
    s: &str,
    len: usize,
    i: usize,
    name: Option<String>,
    loc: Option<String>,
) -> (r: Option<(ResourceGroup, usize)>)
    requires
        len == s@.len(),
        i <= len,
    ensures
        match r {
            Some(v) => resource_group_fields(s@, i as int, opt_text(name), opt_text(loc)) == Some(
                (v.0@, v.1 as int),
            ) && i < v.1 <= len,
            None => resource_group_fields(s@, i as int, opt_text(name), opt_text(loc)) is None,
        },
    decreases len - i,
{
    let key = match read_string_token(s, len, i) {
        None => {
            return None;
        },
        Some(v) => v,
    };
    let k = skip_ws(s, len, key.1);
    if !has_char_at(s, len, k, ':') {
        return None;
    }
    let k2 = skip_ws(s, len, k + 1);
    let step: Option<(Option<String>, Option<String>, usize)> = if text_eq(&key.0, "name") {
        if name.is_some() {
            None
        } else {
            match read_string_token(s, len, k2) {
                None => None,
                Some(v) => {
                    let sep = skip_ws(s, len, v.1);
                    Some((Some(v.0), loc, sep))
                },
            }
        }
    } else if text_eq(&key.0, "location") {
        if loc.is_some() {
            None
        } else {
            match read_string_token(s, len, k2) {
                None => None,
                Some(v) => {
                    let sep = skip_ws(s, len, v.1);
                    Some((name, Some(v.0), sep))
                },
            }
        }
    } else {
        match skip_member_value(s, len, k2) {
            None => None,
            Some(j2) => Some((name, loc, j2)),
        }
    };
    match step {
        None => None,
        Some((name2, loc2, sep)) => {
            if has_char_at(s, len, sep, '}') {
                match (name2, loc2) {
                    (Some(n), Some(l)) => Some((ResourceGroup { name: n, location: l }, sep + 1)),
                    _ => None,
                }
            } else if has_char_at(s, len, sep, ',') {
                let nx = skip_ws(s, len, sep + 1);
                read_resource_group_fields(s, len, nx, name2, loc2)
            } else {
                None
            }
        },
    }
}

/// Reads a subscription entry at position `i`, computing `subscription_at`.
fn read_subscription(s: &str, len: usize, i: usize) -> (r: Option<(Subscription, usize)>)
    requires
        len == s@.len(),
        i <= len,
    ensures
        match r {
            Some(v) => subscription_at(s@, i as int) == Some((v.0@, v.1 as int)) && i < v.1 <= len,
            None => subscription_at(s@, i as int) is None,
        },
{
    if !has_char_at(s, len, i, '{') {
        return None;
    }
    let k = skip_ws(s, len, i + 1);
    if has_char_at(s, len, k, '}') {
        return None;
    }
    read_subscription_fields(s, len, k, None, false, None)
}

/// Reads a resource-group entry at position `i`, computing
/// `resource_group_at`.
fn read_resource_group(s: &str, len: usize, i: usize) -> (r: Option<(ResourceGroup, usize)>)
    requires
        len == s@.len(),
        i <= len,
    ensures
        match r {
            Some(v) => resource_group_at(s@, i as int) == Some((v.0@, v.1 as int)) && i < v.1
                <= len,
            None => resource_group_at(s@, i as int) is None,
        },
{
    if !has_char_at(s, len, i, '{') {
        return None;
    }
    let k = skip_ws(s, len, i + 1);
    if has_char_at(s, len, k, '}') {
        return None;
    }
    read_resource_group_fields(s, len, k, None, None)
}

/// Reads the comma-separated subscription entries and the closing bracket,
/// computing `subscription_items`.
fn read_subscription_items(s: &str, len: usize, i: usize) -> (r: Option<(Vec<Subscription>, usize)>)
    requires
        len == s@.len(),
        i <= len,
    ensures
        match r {
            Some(v) => subscription_items(s@, i as int) == Some(
                (subscription_models(v.0@), v.1 as int),
            ) && i < v.1 <= len,
            None => subscription_items(s@, i as int) is None,
        },
    decreases len - i,
{
    match read_subscription(s, len, i) {
        None => None,
        Some((m, j)) => {
            let k = skip_ws(s, len, j);
            if has_char_at(s, len, k, ']') {
                let mut v: Vec<Subscription> = Vec::new();
                let ghost mg = m@;
                v.push(m);
                proof {
                    assert(subscription_models(v@) =~= seq![mg]);
                }
                Some((v, k + 1))
            } else if has_char_at(s, len, k, ',') {
                let k2 = skip_ws(s, len, k + 1);
                match read_subscription_items(s, len, k2) {
                    None => None,
                    Some((mut rest, e)) => {
                        let ghost restg = subscription_models(rest@);
                        let ghost mg = m@;
                        rest.insert(0, m);
                        proof {
                            assert(subscription_models(rest@) =~= seq![mg] + restg);
                        }
                        Some((rest, e))
                    },
                }
            } else {
                None
            }
        },
    }
}

/// Reads the comma-separated resource-group entries and the closing
/// bracket, computing `resource_group_items`.
fn read_resource_group_items(s: &str, len: usize, i: usize) -> (r: Option<
    (Vec<ResourceGroup>, usize),
>)
    requires
        len == s@.len(),
        i <= len,
    ensures
        match r {
            Some(v) => resource_group_items(s@, i as int) == Some(
                (resource_group_models(v.0@), v.1 as int),
            ) && i < v.1 <= len,
            None => resource_group_items(s@, i as int) is None,
        },
    decreases len - i,
{
    match read_resource_group(s, len, i) {
        None => None,
        Some((m, j)) => {
            let k = skip_ws(s, len, j);
            if has_char_at(s, len, k, ']') {
                let mut v: Vec<ResourceGroup> = Vec::new();
                let ghost mg = m@;
                v.push(m);
                proof {
                    assert(resource_group_models(v@) =~= seq![mg]);
                }
                Some((v, k + 1))
            } else if has_char_at(s, len, k, ',') {
                let k2 = skip_ws(s, len, k + 1);
                match read_resource_group_items(s, len, k2) {
                    None => None,
                    Some((mut rest, e)) => {
                        let ghost restg = resource_group_models(rest@);
                        let ghost mg = m@;
                        rest.insert(0, m);
                        proof {
                            assert(resource_group_models(rest@) =~= seq![mg] + restg);
                        }
                        Some((rest, e))
                    },
                }
            } else {
                None
            }
        },
    }
}

/// Reads a subscription array at position `i`, computing
/// `subscription_array`.
fn read_subscription_array(s: &str, len: usize, i: usize) -> (r: Option<(Vec<Subscription>, usize)>)
    requires
        len == s@.len(),
        i <= len,
    ensures
        match r {
            Some(v) => subscription_array(s@, i as int) == Some(
                (subscription_models(v.0@), v.1 as int),
            ) && i < v.1 <= len,
            None => subscription_array(s@, i as int) is None,
        },
{
    if !has_char_at(s, len, i, '[') {
        return None;
    }
    let k = skip_ws(s, len, i + 1);
    if has_char_at(s, len, k, ']') {
        let v: Vec<Subscription> = Vec::new();
        proof {
            assert(subscription_models(v@) =~= Seq::<SubscriptionModel>::empty());
        }
        Some((v, k + 1))
    } else {
        read_subscription_items(s, len, k)
    }
}

/// Reads a resource-group array at position `i`, computing
/// `resource_group_array`.
fn read_resource_group_array(s: &str, len: usize, i: usize) -> (r: Option<
    (Vec<ResourceGroup>, usize),
>)
    requires
        len == s@.len(),
        i <= len,
    ensures
        match r {
            Some(v) => resource_group_array(s@, i as int) == Some(
                (resource_group_models(v.0@), v.1 as int),
            ) && i < v.1 <= len,
            None => resource_group_array(s@, i as int) is None,
        },
{
    if !has_char_at(s, len, i, '[') {
        return None;
    }
    let k = skip_ws(s, len, i + 1);
    if has_char_at(s, len, k, ']') {
        let v: Vec<ResourceGroup> = Vec::new();
        proof {
            assert(resource_group_models(v@) =~= Seq::<ResourceGroupModel>::empty());
        }
        Some((v, k + 1))
    } else {
        read_resource_group_items(s, len, k)
    }
}

/// The models of an optional entry list.
pub open spec fn opt_subscription_models(o: Option<Vec<Subscription>>) -> Option<
    Seq<SubscriptionModel>,
> {
    match o {
        Some(v) => Some(subscription_models(v@)),
        None => None,
    }
}

/// The models of an optional resource-group list.
pub open spec fn opt_resource_group_models(o: Option<Vec<ResourceGroup>>) -> Option<
    Seq<ResourceGroupModel>,
> {
    match o {
        Some(v) => Some(resource_group_models(v@)),
        None => None,
    }
}

/// Reads the members of the top-level subscriptions object, computing
/// `subscriptions_top_fields`.
fn read_subscriptions_top_fields(s: &str, len: usize, i: usize, items: Option<Vec<Subscription>>) -> (r:
    Option<(Vec<Subscription>, usize)>)
    requires
        len == s@.len(),
        i <= len,
    ensures
        match r {
            Some(v) => subscriptions_top_fields(s@, i as int, opt_subscription_models(items))
                == Some((subscription_models(v.0@), v.1 as int)) && i < v.1 <= len,
            None => subscriptions_top_fields(s@, i as int, opt_subscription_models(items)) is None,
        },
    decreases len - i,
{
    let key = match read_string_token(s, len, i) {
        None => {
            return None;
        },
        Some(v) => v,
    };
    let k = skip_ws(s, len, key.1);
    if !has_char_at(s, len, k, ':') {
        return None;
    }
    let k2 = skip_ws(s, len, k + 1);
    let step: Option<(Option<Vec<Subscription>>, usize)> = if text_eq(&key.0, "value") {
        if items.is_some() {
            None
        } else {
            match read_subscription_array(s, len, k2) {
                None => None,
                Some(v) => {
                    let sep = skip_ws(s, len, v.1);
                    Some((Some(v.0), sep))
                },
            }
        }
    } else {
        match skip_member_value(s, len, k2) {
            None => None,
            Some(j2) => Some((items, j2)),
        }
    };
    match step {
        None => None,
        Some((items2, sep)) => {
            if has_char_at(s, len, sep, '}') {
                match items2 {
                    Some(v) => Some((v, sep + 1)),
                    None => None,
                }
            } else if has_char_at(s, len, sep, ',') {
                let nx = skip_ws(s, len, sep + 1);
                read_subscriptions_top_fields(s, len, nx, items2)
            } else {
                None
            }
        },
    }
}

/// Reads the members of the top-level resource-groups object, computing
/// `resource_groups_top_fields`.
fn read_resource_groups_top_fields(
    s: &str,
    len: usize,
    i: usize,
    items: Option<Vec<ResourceGroup>>,
) -> (r: Option<(Vec<ResourceGroup>, usize)>)
    requires
        len == s@.len(),
        i <= len,
    ensures
        match r {
            Some(v) => resource_groups_top_fields(s@, i as int, opt_resource_group_models(items))
                == Some((resource_group_models(v.0@), v.1 as int)) && i < v.1 <= len,
            None => resource_groups_top_fields(
                s@,
                i as int,
                opt_resource_group_models(items),
            ) is None,
        },
    decreases len - i,
{
    let key = match read_string_token(s, len, i) {
        None => {
            return None;
        },
        Some(v) => v,
    };
    let k = skip_ws(s, len, key.1);
    if !has_char_at(s, len, k, ':') {
        return None;
    }
    let k2 = skip_ws(s, len, k + 1);
    let step: Option<(Option<Vec<ResourceGroup>>, usize)> = if text_eq(&key.0, "value") {
        if items.is_some() {
            None
        } else {
            match read_resource_group_array(s, len, k2) {
                None => None,
                Some(v) => {
                    let sep = skip_ws(s, len, v.1);
                    Some((Some(v.0), sep))
                },
            }
        }
    } else {
        match skip_member_value(s, len, k2) {
            None => None,
            Some(j2) => Some((items, j2)),
        }
    };
    match step {
        None => None,
        Some((items2, sep)) => {
            if has_char_at(s, len, sep, '}') {
                match items2 {
                    Some(v) => Some((v, sep + 1)),
                    None => None,
                }
            } else if has_char_at(s, len, sep, ',') {
                let nx = skip_ws(s, len, sep + 1);
                read_resource_groups_top_fields(s, len, nx, items2)
            } else {
                None
            }
        },
    }
}

/// Parses a whole subscriptions response body. Returns the entries in
/// order exactly when the body belongs to the grammar, `None` otherwise.
pub fn parse_subscriptions_body(s: &str) -> (r: Option<Vec<Subscription>>)
    ensures
        match r {
            Some(v) => subscriptions_body(s@) == Some(subscription_models(v@)),
            None => subscriptions_body(s@) is None,
        },
{
    let len = s.unicode_len();
    let i = skip_ws(s, len, 0);
    if !has_char_at(s, len, i, '{') {
        return None;
    }
    let k = skip_ws(s, len, i + 1);
    match read_subscriptions_top_fields(s, len, k, None) {
        None => None,
        Some((items, j)) => {
            if skip_ws(s, len, j) == len {
                Some(items)
            } else {
                None
            }
        },
    }
}

/// Parses a whole resource-groups response body. Returns the entries in
/// order exactly when the body belongs to the grammar, `None` otherwise.
pub fn parse_resource_groups_body(s: &str) -> (r: Option<Vec<ResourceGroup>>)
    ensures
        match r {
            Some(v) => resource_groups_body(s@) == Some(resource_group_models(v@)),
            None => resource_groups_body(s@) is None,
        },
{
    let len = s.unicode_len();
    let i = skip_ws(s, len, 0);
    if !has_char_at(s, len, i, '{') {
        return None;
    }
    let k = skip_ws(s, len, i + 1);
    match read_resource_groups_top_fields(s, len, k, None) {
        None => None,
        Some((items, j)) => {
            if skip_ws(s, len, j) == len {
                Some(items)
            } else {
                None
            }
        },
    }
}

/// Text that can stand between quotes without escaping: no quote and no
/// backslash. Any other text is rendered with escapes; the canonical
/// rendering below does not use them.
pub open spec fn plain_text(v: Seq<char>) -> bool {
    forall|i: int| 0 <= i < v.len() ==> v[i] != '"' && v[i] != '\\'
}

/// The canonical rendering of a string value.
pub open spec fn render_string(v: Seq<char>) -> Seq<char> {
    seq!['"'] + v + seq!['"']
}

/// The canonical rendering of a subscription entry.
pub open spec fn render_subscription(m: SubscriptionModel) -> Seq<char> {
    seq!['{'] + render_string(field_subscription_id()) + seq![':'] + render_string(
        m.subscription_id,
    ) + (match m.display_name {
        Some(d) => seq![','] + render_string(field_display_name()) + seq![':'] + render_string(d),
        None => Seq::empty(),
    }) + seq!['}']
}

/// The canonical rendering of a resource-group entry.
pub open spec fn render_resource_group(m: ResourceGroupModel) -> Seq<char> {
    seq!['{'] + render_string(field_group_name()) + seq![':'] + render_string(m.name) + seq![',']
        + render_string(field_location()) + seq![':'] + render_string(m.location) + seq!['}']
}

/// The canonical comma-separated rendering of a subscription list.
pub open spec fn render_subscription_list(l: Seq<SubscriptionModel>) -> Seq<char>
    decreases l.len(),
{
    if l.len() == 0 {
        Seq::empty()
    } else if l.len() == 1 {
        render_subscription(l[0])
    } else {
        render_subscription(l[0]) + seq![','] + render_subscription_list(l.drop_first())
    }
}

/// The canonical comma-separated rendering of a resource-group list.
pub open spec fn render_resource_group_list(l: Seq<ResourceGroupModel>) -> Seq<char>
    decreases l.len(),
{
    if l.len() == 0 {
        Seq::empty()
    } else if l.len() == 1 {
        render_resource_group(l[0])
    } else {
        render_resource_group(l[0]) + seq![','] + render_resource_group_list(l.drop_first())
    }
}

/// The canonical rendering of a whole subscriptions response body.
pub open spec fn render_subscriptions_body(l: Seq<SubscriptionModel>) -> Seq<char> {
    seq!['{'] + render_string(field_value()) + seq![':'] + seq!['['] + render_subscription_list(l)
        + seq![']'] + seq!['}']
}

/// The canonical rendering of a whole resource-groups response body.
pub open spec fn render_resource_groups_body(l: Seq<ResourceGroupModel>) -> Seq<char> {
    seq!['{'] + render_string(field_value()) + seq![':'] + seq!['['] + render_resource_group_list(
        l,
    ) + seq![']'] + seq!['}']
}

/// A subscription entry whose strings need no escaping.
pub open spec fn subscription_plain(m: SubscriptionModel) -> bool {
    plain_text(m.subscription_id) && (m.display_name matches Some(d) ==> plain_text(d))
}

/// A resource-group entry whose strings need no escaping.
pub open spec fn resource_group_plain(m: ResourceGroupModel) -> bool {
    plain_text(m.name) && plain_text(m.location)
}

proof fn lemma_lit_index(s: Seq<char>, i: int, t: Seq<char>, j: int)
    requires
        lit_at(s, i, t),
        0 <= j < t.len(),
    ensures
        s[i + j] == t[j],
{
    assert(s.subrange(i, i + t.len())[j] == s[i + j]);
}

proof fn lemma_lit_split(s: Seq<char>, i: int, a: Seq<char>, b: Seq<char>)
    requires
        lit_at(s, i, a + b),
    ensures
        lit_at(s, i, a),
        lit_at(s, i + a.len(), b),
{
    assert(s.subrange(i, i + a.len()) =~= a) by {
        assert forall|j: int| 0 <= j < a.len() implies s.subrange(i, i + a.len())[j] == a[j] by {
            lemma_lit_index(s, i, a + b, j);
            assert((a + b)[j] == a[j]);
        }
    }
    assert(s.subrange(i + a.len(), i + a.len() + b.len()) =~= b) by {
        assert forall|j: int| 0 <= j < b.len() implies s.subrange(
            i + a.len(),
            i + a.len() + b.len(),
        )[j] == b[j] by {
            lemma_lit_index(s, i, a + b, a.len() + j);
            assert((a + b)[a.len() + j] == b[j]);
        }
    }
}

proof fn lemma_ws_end_here(s: Seq<char>, i: int)
    requires
        0 <= i <= s.len(),
        i < s.len() ==> !is_ws_char(s[i]),
    ensures
        ws_end(s, i) == i,
{
}

proof fn lemma_string_token_render(s: Seq<char>, i: int, v: Seq<char>)
    requires
        lit_at(s, i, render_string(v)),
        plain_text(v),
    ensures
        string_token(s, i) == Some((v, i + v.len() + 2)),
{
    assert(render_string(v) =~= seq!['"'] + (v + seq!['"']));
    lemma_lit_split(s, i, seq!['"'], v + seq!['"']);
    lemma_lit_index(s, i, seq!['"'], 0);
    assert(at_char(s, i, '"'));
    lemma_lit_split(s, i + 1, v, seq!['"']);
    let b: int = i + 1 + v.len();
    lemma_lit_index(s, b, seq!['"'], 0);
    assert forall|k: int| i + 1 <= k < b implies s[k] != '"' && s[k] != '\\' by {
        lemma_lit_index(s, i + 1, v, k - (i + 1));
    }
    lemma_string_tail_run(s, i + 1, b);
    assert(string_tail(s, b) == Some((Seq::<char>::empty(), b + 1)));
    assert(s.subrange(i + 1, b) == v);
    assert(v + Seq::<char>::empty() =~= v);
}

proof fn lemma_member_render(s: Seq<char>, i: int, key: Seq<char>, v: Seq<char>)
    requires
        lit_at(s, i, render_string(key) + seq![':'] + render_string(v)),
        plain_text(key),
        plain_text(v),
    ensures
        string_token(s, i) == Some((key, i + key.len() + 2)),
        ws_end(s, i + key.len() + 2) == i + key.len() + 2,
        at_char(s, i + key.len() + 2, ':'),
        ws_end(s, i + key.len() + 3) == i + key.len() + 3,
        at_char(s, i + key.len() + 3, '"'),
        string_token(s, i + key.len() + 3) == Some((v, i + key.len() + 3 + v.len() + 2)),
{
    let a = render_string(key);
    let b = render_string(v);
    assert(a + seq![':'] + b =~= a + (seq![':'] + b));
    lemma_lit_split(s, i, a, seq![':'] + b);
    lemma_lit_split(s, i + a.len(), seq![':'], b);
    lemma_string_token_render(s, i, key);
    lemma_lit_index(s, i + a.len(), seq![':'], 0);
    assert(at_char(s, i + a.len(), ':'));
    lemma_ws_end_here(s, i + a.len());
    lemma_lit_index(s, i + a.len() + 1, b, 0);
    assert(b[0] == '"');
    lemma_ws_end_here(s, i + a.len() + 1);
    lemma_string_token_render(s, i + a.len() + 1, v);
    assert(a.len() == key.len() + 2);
}

proof fn lemma_subscription_render(s: Seq<char>, i: int, m: SubscriptionModel)
    requires
        lit_at(s, i, render_subscription(m)),
        subscription_plain(m),
    ensures
        subscription_at(s, i) == Some((m, i + render_subscription(m).len())),
{
    reveal_strlit("subscriptionId");
    reveal_strlit("displayName");
    reveal_strlit("null");
    reveal_with_fuel(subscription_fields, 3);
    assert(plain_text(field_subscription_id()));
    assert(plain_text(field_display_name()));
    let fid = field_subscription_id();
    let fdn = field_display_name();
    let id = m.subscription_id;
    let m1 = render_string(fid) + seq![':'] + render_string(id);
    match m.display_name {
        None => {
            assert(render_subscription(m) =~= seq!['{'] + m1 + seq!['}']);
            lemma_lit_split(s, i, seq!['{'] + m1, seq!['}']);
            lemma_lit_split(s, i, seq!['{'], m1);
            lemma_lit_index(s, i, seq!['{'], 0);
            assert(at_char(s, i, '{'));
            lemma_lit_index(s, i + 1, m1, 0);
            assert(m1[0] == '"');
            lemma_ws_end_here(s, i + 1);
            assert(!at_char(s, i + 1, '}'));
            lemma_member_render(s, i + 1, fid, id);
            let q: int = i + 1 + fid.len() + 3 + id.len() + 2;
            lemma_lit_index(s, q, seq!['}'], 0);
            assert(at_char(s, q, '}'));
            lemma_ws_end_here(s, q);
            assert(subscription_fields(s, i + 1, None, false, None) == Some((m, q + 1)));
        },
        Some(d) => {
            let m2 = render_string(fdn) + seq![':'] + render_string(d);
            assert(render_subscription(m) =~= seq!['{'] + m1 + (seq![','] + m2) + seq!['}']);
            lemma_lit_split(s, i, seq!['{'] + m1 + (seq![','] + m2), seq!['}']);
            lemma_lit_split(s, i, seq!['{'] + m1, seq![','] + m2);
            lemma_lit_split(s, i, seq!['{'], m1);
            lemma_lit_index(s, i, seq!['{'], 0);
            assert(at_char(s, i, '{'));
            lemma_lit_index(s, i + 1, m1, 0);
            assert(m1[0] == '"');
            lemma_ws_end_here(s, i + 1);
            assert(!at_char(s, i + 1, '}'));
            lemma_member_render(s, i + 1, fid, id);
            let p: int = i + 1 + fid.len() + 3 + id.len() + 2;
            lemma_lit_split(s, p, seq![','], m2);
            lemma_lit_index(s, p, seq![','], 0);
            assert(at_char(s, p, ','));
            assert(!at_char(s, p, '}'));
            lemma_ws_end_here(s, p);
            lemma_lit_index(s, p + 1, m2, 0);
            assert(m2[0] == '"');
            lemma_ws_end_here(s, p + 1);
            lemma_member_render(s, p + 1, fdn, d);
            let q: int = p + 1 + fdn.len() + 3 + d.len() + 2;
            lemma_lit_index(s, q, seq!['}'], 0);
            assert(at_char(s, q, '}'));
            lemma_ws_end_here(s, q);
            assert(fdn != fid) by {
                assert(fdn.len() != fid.len());
            }
            let k2: int = p + 1 + fdn.len() + 3;
            assert(!lit_at(s, k2, null_text())) by {
                assert(at_char(s, k2, '"'));
                if lit_at(s, k2, null_text()) {
                    lemma_lit_index(s, k2, null_text(), 0);
                }
                assert(null_text()[0] == 'n');
            }
            assert(subscription_fields(s, i + 1, None, false, None) == Some((m, q + 1)));
        },
    }
}

proof fn lemma_resource_group_render(s: Seq<char>, i: int, m: ResourceGroupModel)
    requires
        lit_at(s, i, render_resource_group(m)),
        resource_group_plain(m),
    ensures
        resource_group_at(s, i) == Some((m, i + render_resource_group(m).len())),
{
    reveal_strlit("name");
    reveal_strlit("location");
    reveal_with_fuel(resource_group_fields, 3);
    assert(plain_text(field_group_name()));
    assert(plain_text(field_location()));
    let fn0 = field_group_name();
    let fl = field_location();
    let m1 = render_string(fn0) + seq![':'] + render_string(m.name);
    let m2 = render_string(fl) + seq![':'] + render_string(m.location);
    assert(render_resource_group(m) =~= seq!['{'] + m1 + (seq![','] + m2) + seq!['}']);
    lemma_lit_split(s, i, seq!['{'] + m1 + (seq![','] + m2), seq!['}']);
    lemma_lit_split(s, i, seq!['{'] + m1, seq![','] + m2);
    lemma_lit_split(s, i, seq!['{'], m1);
    lemma_lit_index(s, i, seq!['{'], 0);
    assert(at_char(s, i, '{'));
    lemma_lit_index(s, i + 1, m1, 0);
    assert(m1[0] == '"');
    lemma_ws_end_here(s, i + 1);
    assert(!at_char(s, i + 1, '}'));
    lemma_member_render(s, i + 1, fn0, m.name);
    let p: int = i + 1 + fn0.len() + 3 + m.name.len() + 2;
    lemma_lit_split(s, p, seq![','], m2);
    lemma_lit_index(s, p, seq![','], 0);
    assert(at_char(s, p, ','));
    assert(!at_char(s, p, '}'));
    lemma_ws_end_here(s, p);
    lemma_lit_index(s, p + 1, m2, 0);
    assert(m2[0] == '"');
    lemma_ws_end_here(s, p + 1);
    lemma_member_render(s, p + 1, fl, m.location);
    let q: int = p + 1 + fl.len() + 3 + m.location.len() + 2;
    lemma_lit_index(s, q, seq!['}'], 0);
    assert(at_char(s, q, '}'));
    lemma_ws_end_here(s, q);
    assert(fl != fn0) by {
        assert(fl.len() != fn0.len());
    }
    assert(resource_group_fields(s, i + 1, None, None) == Some((m, q + 1)));
}

proof fn lemma_subscription_items_render(s: Seq<char>, i: int, l: Seq<SubscriptionModel>)
    requires
        l.len() > 0,
        lit_at(s, i, render_subscription_list(l) + seq![']']),
        forall|j: int| 0 <= j < l.len() ==> subscription_plain(#[trigger] l[j]),
    ensures
        subscription_items(s, i) == Some((l, i + render_subscription_list(l).len() + 1)),
    decreases l.len(),
{
    if l.len() == 1 {
        assert(render_subscription_list(l) == render_subscription(l[0]));
        lemma_lit_split(s, i, render_subscription(l[0]), seq![']']);
        lemma_subscription_render(s, i, l[0]);
        let j: int = i + render_subscription(l[0]).len();
        lemma_lit_index(s, j, seq![']'], 0);
        assert(at_char(s, j, ']'));
        lemma_ws_end_here(s, j);
        assert(seq![l[0]] =~= l);
    } else {
        let rest = l.drop_first();
        assert(render_subscription_list(l) + seq![']'] =~= render_subscription(l[0]) + seq![',']
            + (render_subscription_list(rest) + seq![']']));
        lemma_lit_split(s, i, render_subscription(l[0]) + seq![','], render_subscription_list(rest)
            + seq![']']);
        lemma_lit_split(s, i, render_subscription(l[0]), seq![',']);
        lemma_subscription_render(s, i, l[0]);
        let j: int = i + render_subscription(l[0]).len();
        lemma_lit_index(s, j, seq![','], 0);
        assert(at_char(s, j, ','));
        assert(!at_char(s, j, ']'));
        lemma_ws_end_here(s, j);
        assert(render_subscription_list(rest)[0] == '{') by {
            assert(render_subscription(rest[0])[0] == '{');
            if rest.len() == 1 {
            } else {
                assert(render_subscription_list(rest)[0] == (render_subscription(rest[0])
                    + seq![','] + render_subscription_list(rest.drop_first()))[0]);
            }
        }
        lemma_lit_index(s, j + 1, render_subscription_list(rest) + seq![']'], 0);
        assert(render_subscription_list(rest).len() > 0) by {
            assert(render_subscription(rest[0]).len() > 0);
        }
        assert(s[j + 1] == '{');
        lemma_ws_end_here(s, j + 1);
        lemma_subscription_items_render(s, j + 1, rest);
        assert(seq![l[0]] + rest =~= l);
    }
}

proof fn lemma_resource_group_items_render(s: Seq<char>, i: int, l: Seq<ResourceGroupModel>)
    requires
        l.len() > 0,
        lit_at(s, i, render_resource_group_list(l) + seq![']']),
        forall|j: int| 0 <= j < l.len() ==> resource_group_plain(#[trigger] l[j]),
    ensures
        resource_group_items(s, i) == Some((l, i + render_resource_group_list(l).len() + 1)),
    decreases l.len(),
{
    if l.len() == 1 {
        assert(render_resource_group_list(l) == render_resource_group(l[0]));
        lemma_lit_split(s, i, render_resource_group(l[0]), seq![']']);
        lemma_resource_group_render(s, i, l[0]);
        let j: int = i + render_resource_group(l[0]).len();
        lemma_lit_index(s, j, seq![']'], 0);
        assert(at_char(s, j, ']'));
        lemma_ws_end_here(s, j);
        assert(seq![l[0]] =~= l);
    } else {
        let rest = l.drop_first();
        assert(render_resource_group_list(l) + seq![']'] =~= render_resource_group(l[0])
            + seq![','] + (render_resource_group_list(rest) + seq![']']));
        lemma_lit_split(
            s,
            i,
            render_resource_group(l[0]) + seq![','],
            render_resource_group_list(rest) + seq![']'],
        );
        lemma_lit_split(s, i, render_resource_group(l[0]), seq![',']);
        lemma_resource_group_render(s, i, l[0]);
        let j: int = i + render_resource_group(l[0]).len();
        lemma_lit_index(s, j, seq![','], 0);
        assert(at_char(s, j, ','));
        assert(!at_char(s, j, ']'));
        lemma_ws_end_here(s, j);
        assert(render_resource_group_list(rest)[0] == '{') by {
            assert(render_resource_group(rest[0])[0] == '{');
            if rest.len() == 1 {
            } else {
                assert(render_resource_group_list(rest)[0] == (render_resource_group(rest[0])
                    + seq![','] + render_resource_group_list(rest.drop_first()))[0]);
            }
        }
        lemma_lit_index(s, j + 1, render_resource_group_list(rest) + seq![']'], 0);
        assert(render_resource_group_list(rest).len() > 0) by {
            assert(render_resource_group(rest[0]).len() > 0);
        }
        assert(s[j + 1] == '{');
        lemma_ws_end_here(s, j + 1);
        lemma_resource_group_items_render(s, j + 1, rest);
        assert(seq![l[0]] + rest =~= l);
    }
}

/// Round trip for the subscriptions probe: the canonical rendering of any
/// list whose strings need no escaping derives back exactly that list —
/// same entries, same order, same count.
#[verifier::rlimit(80)]
pub proof fn lemma_subscriptions_round_trip(l: Seq<SubscriptionModel>)
    requires
        forall|j: int| 0 <= j < l.len() ==> subscription_plain(#[trigger] l[j]),
    ensures
        subscriptions_body(render_subscriptions_body(l)) == Some(l),
{
    reveal_strlit("value");
    assert(plain_text(field_value()));
    let s = render_subscriptions_body(l);
    let fv = field_value();
    let kv = render_string(fv);
    let arr = seq!['['] + (render_subscription_list(l) + seq![']']);
    assert(lit_at(s, 0, s)) by {
        assert(s.subrange(0, s.len() as int) =~= s);
    }
    assert(s =~= seq!['{'] + kv + seq![':'] + arr + seq!['}']);
    lemma_lit_split(s, 0, seq!['{'] + kv + seq![':'] + arr, seq!['}']);
    lemma_lit_split(s, 0, seq!['{'] + kv + seq![':'], arr);
    lemma_lit_split(s, 0, seq!['{'] + kv, seq![':']);
    lemma_lit_split(s, 0, seq!['{'], kv);
    lemma_lit_index(s, 0, seq!['{'], 0);
    assert(at_char(s, 0, '{'));
    lemma_ws_end_here(s, 0);
    lemma_lit_index(s, 1, kv, 0);
    assert(kv[0] == '"');
    lemma_ws_end_here(s, 1);
    lemma_string_token_render(s, 1, fv);
    let p: int = 1 + fv.len() as int + 2;
    lemma_lit_index(s, p, seq![':'], 0);
    assert(at_char(s, p, ':'));
    lemma_ws_end_here(s, p);
    lemma_lit_index(s, p + 1, arr, 0);
    assert(arr[0] == '[');
    lemma_ws_end_here(s, p + 1);
    let k2: int = p + 1;
    lemma_lit_split(s, k2, seq!['['], render_subscription_list(l) + seq![']']);
    assert(at_char(s, k2, '['));
    let k3: int = k2 + 1;
    if l.len() == 0 {
        assert(render_subscription_list(l) =~= Seq::<char>::empty());
        assert(render_subscription_list(l) + seq![']'] =~= seq![']']);
        lemma_lit_index(s, k3, render_subscription_list(l) + seq![']'], 0);
        assert(at_char(s, k3, ']'));
        lemma_ws_end_here(s, k3);
        assert(subscription_array(s, k2) == Some((l, k3 + 1)));
    } else {
        lemma_lit_index(s, k3, render_subscription_list(l) + seq![']'], 0);
        assert(render_subscription_list(l)[0] == '{') by {
            assert(render_subscription(l[0])[0] == '{');
            if l.len() == 1 {
            } else {
                assert(render_subscription_list(l)[0] == (render_subscription(l[0]) + seq![',']
                    + render_subscription_list(l.drop_first()))[0]);
            }
        }
        assert(render_subscription_list(l).len() > 0) by {
            assert(render_subscription(l[0]).len() > 0);
        }
        assert(s[k3] == '{');
        lemma_ws_end_here(s, k3);
        assert(!at_char(s, k3, ']'));
        lemma_subscription_items_render(s, k3, l);
        assert(subscription_array(s, k2) == Some((l, k3 + render_subscription_list(l).len() + 1)));
    }
    let a_end: int = k3 + render_subscription_list(l).len() + 1;
    lemma_lit_index(s, a_end, seq!['}'], 0);
    assert(at_char(s, a_end, '}'));
    lemma_ws_end_here(s, a_end);
    lemma_ws_end_here(s, a_end + 1);
    assert(a_end + 1 == s.len());
    assert(subscriptions_top_fields(s, 1, None) == Some((l, a_end + 1)));
    assert(subscriptions_body(s) == Some(l));
}

/// Round trip for the resource-groups probe: the canonical rendering of
/// any list whose strings need no escaping derives back exactly that
/// list — same entries, same order, same count.
#[verifier::rlimit(80)]
pub proof fn lemma_resource_groups_round_trip(l: Seq<ResourceGroupModel>)
    requires
        forall|j: int| 0 <= j < l.len() ==> resource_group_plain(#[trigger] l[j]),
    ensures
        resource_groups_body(render_resource_groups_body(l)) == Some(l),
{
    reveal_strlit("value");
    assert(plain_text(field_value()));
    let s = render_resource_groups_body(l);
    let fv = field_value();
    let kv = render_string(fv);
    let arr = seq!['['] + (render_resource_group_list(l) + seq![']']);
    assert(lit_at(s, 0, s)) by {
        assert(s.subrange(0, s.len() as int) =~= s);
    }
    assert(s =~= seq!['{'] + kv + seq![':'] + arr + seq!['}']);
    lemma_lit_split(s, 0, seq!['{'] + kv + seq![':'] + arr, seq!['}']);
    lemma_lit_split(s, 0, seq!['{'] + kv + seq![':'], arr);
    lemma_lit_split(s, 0, seq!['{'] + kv, seq![':']);
    lemma_lit_split(s, 0, seq!['{'], kv);
    lemma_lit_index(s, 0, seq!['{'], 0);
    assert(at_char(s, 0, '{'));
    lemma_ws_end_here(s, 0);
    lemma_lit_index(s, 1, kv, 0);
    assert(kv[0] == '"');
    lemma_ws_end_here(s, 1);
    lemma_string_token_render(s, 1, fv);
    let p: int = 1 + fv.len() as int + 2;
    lemma_lit_index(s, p, seq![':'], 0);
    assert(at_char(s, p, ':'));
    lemma_ws_end_here(s, p);
    lemma_lit_index(s, p + 1, arr, 0);
    assert(arr[0] == '[');
    lemma_ws_end_here(s, p + 1);
    let k2: int = p + 1;
    lemma_lit_split(s, k2, seq!['['], render_resource_group_list(l) + seq![']']);
    assert(at_char(s, k2, '['));
    let k3: int = k2 + 1;
    if l.len() == 0 {
        assert(render_resource_group_list(l) =~= Seq::<char>::empty());
        assert(render_resource_group_list(l) + seq![']'] =~= seq![']']);
        lemma_lit_index(s, k3, render_resource_group_list(l) + seq![']'], 0);
        assert(at_char(s, k3, ']'));
        lemma_ws_end_here(s, k3);
        assert(resource_group_array(s, k2) == Some((l, k3 + 1)));
    } else {
        lemma_lit_index(s, k3, render_resource_group_list(l) + seq![']'], 0);
        assert(render_resource_group_list(l)[0] == '{') by {
            assert(render_resource_group(l[0])[0] == '{');
            if l.len() == 1 {
            } else {
                assert(render_resource_group_list(l)[0] == (render_resource_group(l[0])
                    + seq![','] + render_resource_group_list(l.drop_first()))[0]);
            }
        }
        assert(render_resource_group_list(l).len() > 0) by {
            assert(render_resource_group(l[0]).len() > 0);
        }
        assert(s[k3] == '{');
        lemma_ws_end_here(s, k3);
        assert(!at_char(s, k3, ']'));
        lemma_resource_group_items_render(s, k3, l);
        assert(resource_group_array(s, k2) == Some(
            (l, k3 + render_resource_group_list(l).len() + 1),
        ));
    }
    let a_end: int = k3 + render_resource_group_list(l).len() + 1;
    lemma_lit_index(s, a_end, seq!['}'], 0);
    assert(at_char(s, a_end, '}'));
    lemma_ws_end_here(s, a_end);
    lemma_ws_end_here(s, a_end + 1);
    assert(a_end + 1 == s.len());
    assert(resource_groups_top_fields(s, 1, None) == Some((l, a_end + 1)));
    assert(resource_groups_body(s) == Some(l));
}

} // verus!
