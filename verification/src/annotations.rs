//! Working on the source text of a function: finding the name of a
//! parameter by its type, and putting a statement at the head of a body.
//! Attributes that rewrite handlers are built on these.

use vstd::prelude::*;
use vstd::string::StringExecFns;
use vstd::string::StrSliceExecFns;

verus! {

/// Whether `pattern` stands in `text` at position `i`.
pub open spec fn occurs_at(text: Seq<char>, pattern: Seq<char>, i: int) -> bool {
    &&& 0 <= i
    &&& i + pattern.len() <= text.len()
    &&& text.subrange(i, i + pattern.len()) == pattern
}

/// The first position from `i` on at which `pattern` stands in `text`.
pub open spec fn find_from(text: Seq<char>, pattern: Seq<char>, i: int) -> Option<int>
    decreases text.len() + 1 - i,
{
    if i < 0 || i + pattern.len() > text.len() {
        None
    } else if occurs_at(text, pattern, i) {
        Some(i)
    } else {
        find_from(text, pattern, i + 1)
    }
}

/// The last position of `c` in `text`.
pub open spec fn last_index_of(text: Seq<char>, c: char) -> Option<int>
    decreases text.len(),
{
    if text.len() == 0 {
        None
    } else if text.last() == c {
        Some(text.len() - 1)
    } else {
        last_index_of(text.drop_last(), c)
    }
}

/// How many characters stand in `text` before the first `c`: all of them
/// where there is none.
pub open spec fn length_until(text: Seq<char>, c: char) -> int
    decreases text.len(),
{
    if text.len() == 0 || text[0] == c {
        0
    } else {
        1 + length_until(text.skip(1), c)
    }
}

/// The text between the parameter's type and the separator before it, as
/// far as the colon: the name of the first parameter of the type
/// `param_type` in the function text `load`, with the blanks around it.
///
/// The separator is the last comma before the type or, where there is
/// none, the last opening parenthesis. There is no name where the type
/// does not occur or no separator stands before it.
pub open spec fn raw_param_name(param_type: Seq<char>, load: Seq<char>) -> Option<Seq<char>> {
    match find_from(load, param_type, 0) {
        None => None,
        Some(pos) => {
            let before = load.take(pos);
            let cut = match last_index_of(before, ',') {
                Some(comma) => Some(comma),
                None => last_index_of(before, '('),
            };
            match cut {
                None => None,
                Some(at) => {
                    let rest = before.skip(at + 1);
                    Some(rest.take(length_until(rest, ':')))
                },
            }
        },
    }
}

/// The characters of `s`.
fn to_chars(s: &str) -> (chars: Vec<char>)
    ensures
        chars@ == s@,
{
    let n = s.unicode_len();
    let mut chars: Vec<char> = Vec::new();
    let mut i: usize = 0;
    while i < n
        invariant
            n == s@.len(),
            i <= n,
            chars@ == s@.take(i as int),
        decreases n - i,
    {
        chars.push(s.get_char(i));
        proof {
            assert(s@.take(i + 1) =~= s@.take(i as int).push(s@[i as int]));
        }
        i += 1;
    }
    proof {
        assert(s@.take(n as int) =~= s@);
    }
    chars
}

fn matches_at(text: &Vec<char>, pattern: &Vec<char>, i: usize) -> (yes: bool)
    requires
        i + pattern.len() <= text.len(),
    ensures
        yes == occurs_at(text@, pattern@, i as int),
{
    let mut k: usize = 0;
    while k < pattern.len()
        invariant
            k <= pattern.len(),
            i + pattern.len() <= text.len(),
            forall|j: int| 0 <= j < k ==> text@[i + j] == pattern@[j],
        decreases pattern.len() - k,
    {
        if text[i + k] != pattern[k] {
            proof {
                assert(text@.subrange(i as int, i + pattern@.len())[k as int] == text@[i + k]);
            }
            return false;
        }
        k += 1;
    }
    proof {
        assert(text@.subrange(i as int, i + pattern@.len()) =~= pattern@);
    }
    true
}

fn find(text: &Vec<char>, pattern: &Vec<char>) -> (found: Option<usize>)
    ensures
        match found {
            Some(i) => find_from(text@, pattern@, 0) == Some(i as int) && i + pattern@.len()
                <= text@.len(),
            None => find_from(text@, pattern@, 0) is None,
        },
{
    if pattern.len() > text.len() {
        return None;
    }
    let last = text.len() - pattern.len();
    let mut i: usize = 0;
    while i <= last
        invariant
            last == text.len() - pattern.len(),
            i <= last,
            find_from(text@, pattern@, 0) == find_from(text@, pattern@, i as int),
        decreases last - i,
    {
        if matches_at(text, pattern, i) {
            return Some(i);
        }
        if i == last {
            return None;
        }
        i += 1;
    }
    None
}

/// The last position of `c` among the first `end` characters.
fn rfind(text: &Vec<char>, end: usize, c: char) -> (found: Option<usize>)
    requires
        end <= text@.len(),
    ensures
        match found {
            Some(i) => last_index_of(text@.take(end as int), c) == Some(i as int) && i < end,
            None => last_index_of(text@.take(end as int), c) is None,
        },
{
    let mut i: usize = end;
    while i > 0
        invariant
            i <= end <= text@.len(),
            last_index_of(text@.take(end as int), c) == last_index_of(text@.take(i as int), c),
        decreases i,
    {
        if text[i - 1] == c {
            return Some(i - 1);
        }
        proof {
            assert(text@.take(i as int).drop_last() =~= text@.take(i - 1));
        }
        i -= 1;
    }
    None
}

/// The name of the first parameter of the type `param_type` in the
/// function text `load`, with the blanks around it.
pub fn untrimmed_param_name(param_type: &str, load: &str) -> (name: Option<String>)
    ensures
        match name {
            Some(n) => raw_param_name(param_type@, load@) == Some(n@),
            None => raw_param_name(param_type@, load@) is None,
        },
{
    let text = to_chars(load);
    let pattern = to_chars(param_type);
    let pos = match find(&text, &pattern) {
        Some(pos) => pos,
        None => {
            return None;
        },
    };
    let cut = match rfind(&text, pos, ',') {
        Some(comma) => comma,
        None => match rfind(&text, pos, '(') {
            Some(paren) => paren,
            None => {
                return None;
            },
        },
    };
    let ghost rest = text@.take(pos as int).skip(cut + 1);
    let from = cut + 1;
    let mut to: usize = from;
    proof {
        assert(rest.skip(0) =~= rest);
    }
    while to < pos && text[to] != ':'
        invariant
            from <= to <= pos <= text@.len(),
            rest == text@.take(pos as int).skip(from as int),
            length_until(rest, ':') == (to - from) + length_until(rest.skip(to - from), ':'),
        decreases pos - to,
    {
        proof {
            assert(rest.skip(to - from)[0] == text@[to as int]);
            assert(rest.skip(to - from).skip(1) =~= rest.skip(to + 1 - from));
        }
        to += 1;
    }
    proof {
        if to < pos {
            assert(rest.skip(to - from)[0] == text@[to as int]);
        } else {
            assert(rest.skip(to - from).len() == 0);
        }
        assert(rest.take(to - from) =~= load@.subrange(from as int, to as int));
    }
    Some(String::from_str(load.substring_char(from, to)))
}

/// What `str::trim` makes of a text: the text without the white space at
/// its two ends.
pub uninterp spec fn trimmed(text: Seq<char>) -> Seq<char>;

/// `str::trim` of the standard library, which cuts the white space off
/// both ends of a text. What comes back is named `trimmed`; nothing more
/// is claimed of it.
#[verifier::external_body]
fn trim(text: &str) -> (cut: String)
    ensures
        cut@ == trimmed(text@),
{
    text.trim().to_string()
}

/// The name of the first parameter of the type `param_type` in the
/// function text `load`.
pub fn get_param_name_by_type(param_type: &str, load: String) -> (name: Option<String>)
    ensures
        match name {
            Some(n) => raw_param_name(param_type@, load@) matches Some(raw) && n@ == trimmed(raw),
            None => raw_param_name(param_type@, load@) is None,
        },
{
    match untrimmed_param_name(param_type, load.as_str()) {
        Some(raw) => Some(trim(raw.as_str())),
        None => None,
    }
}

/// The text with `statement` put right behind its first opening brace:
/// a function with one more statement at the head of its body. A text
/// without a brace has no body to put it in.
pub open spec fn with_statement(function: Seq<char>, statement: Seq<char>) -> Option<Seq<char>> {
    match find_from(function, seq!['{'], 0) {
        None => None,
        Some(at) => Some(function.take(at + 1) + statement + function.skip(at + 1)),
    }
}

/// The position of the first `c` in `text`.
fn find_char(text: &str, c: char) -> (found: Option<usize>)
    ensures
        match found {
            Some(i) => find_from(text@, seq![c], 0) == Some(i as int) && i < text@.len(),
            None => find_from(text@, seq![c], 0) is None,
        },
{
    let chars = to_chars(text);
    let mut pattern: Vec<char> = Vec::new();
    pattern.push(c);
    assert(pattern@ =~= seq![c]);
    find(&chars, &pattern)
}

/// `function` with `statement` as the first of its body.
pub fn with_first_statement(function: &str, statement: &str) -> (changed: Option<String>)
    ensures
        match changed {
            Some(text) => with_statement(function@, statement@) == Some(text@),
            None => with_statement(function@, statement@) is None,
        },
{
    let at = match find_char(function, '{') {
        Some(at) => at,
        None => {
            return None;
        },
    };
    let n = function.unicode_len();
    let mut text = String::from_str(function.substring_char(0, at + 1));
    text.append(statement);
    text.append(function.substring_char(at + 1, n));
    proof {
        assert(function@.subrange(0, at + 1) =~= function@.take(at + 1));
        assert(function@.subrange(at + 1, n as int) =~= function@.skip(at + 1));
    }
    Some(text)
}

/// The check of the user's roles that is put at the head of a handler:
/// the user is made out from the authorization header of the request
/// `req` by the service `auth`, and the handler returns early unless the
/// user has one of `roles`.
pub open spec fn role_check(auth: Seq<char>, req: Seq<char>, roles: Seq<char>) -> Seq<char> {
    "match "@
        + auth
        + ".get_user_if_has_role(\n            match "@
        + req
        + ".headers().get(actix_web::http::header::AUTHORIZATION) {\n                Some(header) => Some(header.to_str()),\n                None => None,\n            },\n            vec!["@
        + roles
        + "]\n        ) {\n            Err(err) => return Err(err),\n            Ok(user_option) => match user_option {\n                Some(user) => user,\n                None => return Err(Error::unauthorized_str(\"user has no rights for this operation\")),\n            }\n        };"@
}

/// The parameter that a handler is given where it takes no request.
pub open spec fn request_parameter() -> Seq<char> {
    "req: actix_web::HttpRequest,"@
}

/// The parameter that a handler is given where it takes no service to
/// make out users with.
pub open spec fn auth_parameter() -> Seq<char> {
    "auth_service: actix_web::web::Data<std::sync::Arc<dyn crate::services::traits::AuthService + std::marker::Send + std::marker::Sync>>,"@
}

/// A handler that lets in only users with one of `roles`: the handler
/// `item` with the check of the roles at the head of its body. The names
/// `auth` and `req` are those of the handler's parameters for the auth
/// service and the request; where it has none, one called `auth_service`
/// or `req` is added in front of its parameters. There is nothing to
/// guard in a text without a parameter list or without a body behind it.
pub open spec fn guarded(
    roles: Seq<char>,
    item: Seq<char>,
    auth: Option<Seq<char>>,
    req: Option<Seq<char>>,
) -> Option<Seq<char>> {
    match find_from(item, seq!['('], 0) {
        None => None,
        Some(p) => {
            let first = item.take(p + 1);
            let other = item.skip(p + 1);
            match find_from(other, seq!['{'], 0) {
                None => None,
                Some(b) => Some(
                    first + match req {
                        None => request_parameter(),
                        Some(_) => Seq::<char>::empty(),
                    } + match auth {
                        None => auth_parameter(),
                        Some(_) => Seq::<char>::empty(),
                    } + other.take(b + 1) + role_check(
                        match auth {
                            Some(name) => name,
                            None => "auth_service"@,
                        },
                        match req {
                            Some(name) => name,
                            None => "req"@,
                        },
                        roles,
                    ) + other.skip(b + 1),
                ),
            }
        },
    }
}

/// The name of the first parameter of the type `param_type` in `load`.
pub open spec fn param_name(param_type: Seq<char>, load: Seq<char>) -> Option<Seq<char>> {
    match raw_param_name(param_type, load) {
        Some(raw) => Some(trimmed(raw)),
        None => None,
    }
}

/// The view of an optional text.
pub open spec fn text_of(text: Option<String>) -> Option<Seq<char>> {
    match text {
        Some(t) => Some(t@),
        None => None,
    }
}

/// The handler `item` guarded by a check of `roles`, where `auth` and
/// `req` are the names of its parameters for the auth service and the
/// request.
pub fn roles_with(roles: &str, item: &str, auth: Option<String>, req: Option<String>) -> (changed:
    Option<String>)
    ensures
        text_of(changed) == guarded(roles@, item@, text_of(auth), text_of(req)),
{
    let p = match find_char(item, '(') {
        Some(p) => p,
        None => {
            return None;
        },
    };
    let n = item.unicode_len();
    let other = item.substring_char(p + 1, n);
    proof {
        assert(item@.subrange(p + 1, n as int) =~= item@.skip(p + 1));
        assert(item@.subrange(0, p + 1) =~= item@.take(p + 1));
    }
    let b = match find_char(other, '{') {
        Some(b) => b,
        None => {
            return None;
        },
    };
    let m = other.unicode_len();
    proof {
        assert(other@.subrange(0, b + 1) =~= other@.take(b + 1));
        assert(other@.subrange(b + 1, m as int) =~= other@.skip(b + 1));
    }
    let mut text = String::from_str(item.substring_char(0, p + 1));
    match &req {
        None => {
            text.append("req: actix_web::HttpRequest,");
        },
        Some(_) => {},
    }
    match &auth {
        None => {
            text.append("auth_service: actix_web::web::Data<std::sync::Arc<dyn crate::services::traits::AuthService + std::marker::Send + std::marker::Sync>>,");
        },
        Some(_) => {},
    }
    text.append(other.substring_char(0, b + 1));
    text.append("match ");
    match &auth {
        Some(name) => {
            text.append(name.as_str());
        },
        None => {
            text.append("auth_service");
        },
    }
    text.append(".get_user_if_has_role(\n            match ");
    match &req {
        Some(name) => {
            text.append(name.as_str());
        },
        None => {
            text.append("req");
        },
    }
    text.append(".headers().get(actix_web::http::header::AUTHORIZATION) {\n                Some(header) => Some(header.to_str()),\n                None => None,\n            },\n            vec![");
    text.append(roles);
    text.append("]\n        ) {\n            Err(err) => return Err(err),\n            Ok(user_option) => match user_option {\n                Some(user) => user,\n                None => return Err(Error::unauthorized_str(\"user has no rights for this operation\")),\n            }\n        };");
    text.append(other.substring_char(b + 1, m));
    proof {
        assert(text@ =~= guarded(roles@, item@, text_of(auth), text_of(req)).unwrap());
    }
    Some(text)
}

/// The handler `item` guarded by a check of the roles `attr`: the auth
/// service and the request are those of its parameters whose types say
/// so.
pub fn roles(attr: &str, item: &str) -> (changed: Option<String>)
    ensures
        text_of(changed) == guarded(
            attr@,
            item@,
            param_name("AuthService"@, item@),
            param_name("HttpRequest"@, item@),
        ),
{
    let auth = get_param_name_by_type("AuthService", String::from_str(item));
    let req = get_param_name_by_type("HttpRequest", String::from_str(item));
    roles_with(attr, item, auth, req)
}

} // verus!
