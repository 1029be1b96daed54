//! Path expressions: the dotted paths by which a task picks a part of its input.

use vstd::prelude::*;
use vstd::string::StringExecFns;
use crate::payload::Json;
use crate::runtime::step::StepError;

verus! {

/// True for the characters that `char::is_whitespace` takes for white space.
pub uninterp spec fn whitespace(c: char) -> bool;

/// `char::is_whitespace`: whether the character is white space.
pub assume_specification[ char::is_whitespace ](c: char) -> (b: bool)
    ensures
        b == whitespace(c),
;

/// `String::push`: appends one character.
pub assume_specification[ String::push ](s: &mut String, c: char)
    ensures
        final(s)@ == old(s)@.push(c),
;

/// The documents of a sequence of values.
pub open spec fn documents(values: Seq<serde_json::Value>) -> Seq<Json> {
    values.map_values(|v: serde_json::Value| crate::payload::json_view(v))
}

/// The document of an optional reference to a value.
pub open spec fn opt_document(r: Option<&serde_json::Value>) -> Option<Json> {
    match r {
        Some(v) => Some(crate::payload::json_view(*v)),
        None => None,
    }
}

/// The documents of an optional reference to a list of values.
pub open spec fn opt_documents(r: Option<&Vec<serde_json::Value>>) -> Option<Seq<Json>> {
    match r {
        Some(v) => Some(documents(v@)),
        None => None,
    }
}

/// The member of an object under a key; nothing for a document that is no object or has
/// no such member.
pub open spec fn member_of(doc: Json, key: Seq<char>) -> Option<Json> {
    match doc {
        Json::Object(m) => if m.contains_key(key) {
            Some(m[key])
        } else {
            None
        },
        _ => None,
    }
}

/// The items of an array; nothing for a document that is no array.
pub open spec fn array_items(doc: Json) -> Option<Seq<Json>> {
    match doc {
        Json::List(items) => Some(items),
        _ => None,
    }
}

/// `Value::get` with a string index: the member of an object under the key, and nothing
/// for any other value.
#[verifier::external_body]
fn member<'a>(v: &'a serde_json::Value, key: &str) -> (r: Option<&'a serde_json::Value>)
    ensures
        opt_document(r) == member_of(crate::payload::json_view(*v), key@),
{
    v.get(key)
}

/// `Value::as_array`: the items of an array, and nothing for any other value.
pub assume_specification[ serde_json::Value::as_array ](v: &serde_json::Value) -> (r: Option<&Vec<serde_json::Value>>)
    ensures
        opt_documents(r) == array_items(crate::payload::json_view(*v)),
;

/// True when every character is white space.
pub open spec fn blank(s: Seq<char>) -> bool {
    forall|i: int| 0 <= i < s.len() ==> whitespace(#[trigger] s[i])
}

/// What is left of `s` once the characters `c` at its front are taken off.
pub open spec fn after_leading(s: Seq<char>, c: char) -> Seq<char>
    decreases s.len(),
{
    if s.len() > 0 && s[0] == c {
        after_leading(s.drop_first(), c)
    } else {
        s
    }
}

/// The pieces into which the separator cuts `s`, the empty ones among them.
pub open spec fn pieces(s: Seq<char>, sep: char) -> Seq<Seq<char>>
    decreases s.len(),
{
    if s.len() == 0 {
        seq![Seq::empty()]
    } else {
        let before = pieces(s.drop_last(), sep);
        if s.last() == sep {
            before.push(Seq::empty())
        } else {
            before.drop_last().push(before.last().push(s.last()))
        }
    }
}

/// The pieces that are not empty, in their order.
pub open spec fn nonempty(p: Seq<Seq<char>>) -> Seq<Seq<char>>
    decreases p.len(),
{
    if p.len() == 0 {
        Seq::empty()
    } else if p.last().len() > 0 {
        nonempty(p.drop_last()).push(p.last())
    } else {
        nonempty(p.drop_last())
    }
}

/// The keys that a `for.in` expression names, outermost first: none for a blank
/// expression; else the expression without the `$` and the `.` at its front, cut at
/// every `.`, without the empty pieces.
pub open spec fn for_in_path(expr: Seq<char>) -> Seq<Seq<char>> {
    if blank(expr) {
        Seq::empty()
    } else {
        nonempty(pieces(after_leading(after_leading(expr, '$'), '.'), '.'))
    }
}

/// The document that a path of keys leads to, from member to member; nothing where a key
/// is missing on the way.
pub open spec fn descend(doc: Json, path: Seq<Seq<char>>) -> Option<Json>
    decreases path.len(),
{
    if path.len() == 0 {
        Some(doc)
    } else {
        match descend(doc, path.drop_last()) {
            Some(d) => member_of(d, path.last()),
            None => None,
        }
    }
}

/// The message for a path that leads nowhere.
pub open spec fn not_found(expr: Seq<char>) -> Seq<char> {
    "for.in path '"@ + expr + "' not found in input"@
}

/// The message for a path that leads to something other than an array, whose text is
/// `text`.
pub open spec fn not_an_array(expr: Seq<char>, text: Seq<char>) -> Seq<char> {
    "for.in expression '"@ + expr + "' did not resolve to an array (got "@ + text + ")"@
}

/// The views of a list of strings.
pub open spec fn texts(v: Seq<String>) -> Seq<Seq<char>> {
    v.map_values(|s: String| s@)
}

/// The pointer for a dotted path: `/` in place of every `.`, and the two characters that
/// a pointer reserves, `~` and `/`, written `~0` and `~1`.
pub open spec fn pointer_escape(path: Seq<char>) -> Seq<char>
    decreases path.len(),
{
    if path.len() == 0 {
        Seq::empty()
    } else {
        let head = pointer_escape(path.drop_last());
        let c = path.last();
        if c == '.' {
            head.push('/')
        } else if c == '~' {
            head.push('~').push('0')
        } else if c == '/' {
            head.push('~').push('1')
        } else {
            head.push(c)
        }
    }
}

/// The JSON pointer of a dotted expression: `/`, then the pointer of what follows the
/// dots at the front of the expression.
pub open spec fn json_pointer_of(expr: Seq<char>) -> Seq<char> {
    seq!['/'] + pointer_escape(after_leading(expr, '.'))
}

/// The characters of a string.
pub fn chars_of(s: &str) -> (v: Vec<char>)
    ensures
        v@ == s@,
{
    let mut v: Vec<char> = Vec::new();
    for c in it: s.chars()
        invariant
            v@ == it.seq().take(it.index() as int),
            it.seq() == s@,
    {
        v.push(c);
        proof {
            assert(v@ =~= it.seq().take(it.index() + 1));
        }
    }
    assert(v@ =~= s@);
    v
}

/// Tells whether every character is white space.
fn is_blank(chars: &Vec<char>) -> (b: bool)
    ensures
        b == blank(chars@),
{
    let mut i: usize = 0;
    while i < chars.len()
        invariant
            i <= chars.len(),
            forall|j: int| 0 <= j < i ==> whitespace(#[trigger] chars@[j]),
        decreases chars.len() - i,
    {
        if !chars[i].is_whitespace() {
            return false;
        }
        i = i + 1;
    }
    true
}

/// The first place at or after `from` where the character is not `c`.
fn skip_leading(chars: &Vec<char>, from: usize, c: char) -> (to: usize)
    requires
        from <= chars.len(),
    ensures
        from <= to <= chars.len(),
        chars@.skip(to as int) == after_leading(chars@.skip(from as int), c),
{
    let mut i = from;
    while i < chars.len() && chars[i] == c
        invariant
            from <= i <= chars.len(),
            after_leading(chars@.skip(i as int), c) == after_leading(chars@.skip(from as int), c),
        decreases chars.len() - i,
    {
        proof {
            assert(chars@.skip(i as int).drop_first() =~= chars@.skip(i + 1));
        }
        i = i + 1;
    }
    proof {
        let rest = chars@.skip(i as int);
        if i < chars.len() {
            assert(rest[0] == chars@[i as int]);
        }
    }
    i
}

/// The pieces of a string have a last one.
pub proof fn lemma_pieces_are_some(s: Seq<char>, sep: char)
    ensures
        pieces(s, sep).len() >= 1,
    decreases s.len(),
{
    if s.len() > 0 {
        lemma_pieces_are_some(s.drop_last(), sep);
    }
}

/// The pieces of `chars` from `from` on that are not empty, cut at `sep`.
fn split_nonempty(chars: &Vec<char>, from: usize, sep: char) -> (out: Vec<String>)
    requires
        from <= chars.len(),
    ensures
        texts(out@) == nonempty(pieces(chars@.skip(from as int), sep)),
{
    let ghost all = chars@.skip(from as int);
    let mut done: Vec<String> = Vec::new();
    let mut current = String::new();
    let mut i = from;
    proof {
        assert(all.take(0) =~= Seq::<char>::empty());
        assert(pieces(all.take(0), sep) =~= seq![Seq::<char>::empty()]);
        assert(pieces(all.take(0), sep).drop_last() =~= Seq::<Seq<char>>::empty());
        assert(texts(done@) =~= nonempty(pieces(all.take(0), sep).drop_last()));
    }
    while i < chars.len()
        invariant
            from <= i <= chars.len(),
            all == chars@.skip(from as int),
            texts(done@) == nonempty(pieces(all.take(i - from), sep).drop_last()),
            current@ == pieces(all.take(i - from), sep).last(),
        decreases chars.len() - i,
    {
        let c = chars[i];
        proof {
            let before = all.take(i - from);
            let now = all.take(i + 1 - from);
            assert(now.drop_last() =~= before);
            assert(now.last() == c);
            lemma_pieces_are_some(before, sep);
            let p = pieces(before, sep);
            if c == sep {
                assert(pieces(now, sep).drop_last() =~= p);
                assert(p.drop_last().push(p.last()) =~= p);
            } else {
                assert(pieces(now, sep).drop_last() =~= p.drop_last());
            }
        }
        if c == sep {
            if current.as_str().unicode_len() > 0 {
                done.push(current);
                assert(texts(done@) =~= nonempty(pieces(all.take(i + 1 - from), sep).drop_last()));
            }
            current = String::new();
        } else {
            current.push(c);
        }
        i = i + 1;
    }
    proof {
        assert(all.take(i - from) =~= all);
        lemma_pieces_are_some(all, sep);
        let p = pieces(all, sep);
        assert(p.drop_last().push(p.last()) =~= p);
    }
    if current.as_str().unicode_len() > 0 {
        done.push(current);
        assert(texts(done@) =~= nonempty(pieces(all, sep)));
    }
    done
}

/// The keys that a `for.in` expression names, outermost first.
pub fn path_segments(expr: &str) -> (path: Vec<String>)
    ensures
        texts(path@) == for_in_path(expr@),
{
    let chars = chars_of(expr);
    if is_blank(&chars) {
        let path: Vec<String> = Vec::new();
        assert(texts(path@) =~= Seq::<Seq<char>>::empty());
        path
    } else {
        let after_dollars = skip_leading(&chars, 0, '$');
        let after_dots = skip_leading(&chars, after_dollars, '.');
        assert(chars@.skip(0) =~= chars@);
        split_nonempty(&chars, after_dots, '.')
    }
}

/// The value that a path of keys leads to in `input`, or nothing where a key is missing.
pub fn follow<'a>(input: &'a serde_json::Value, path: &Vec<String>) -> (r: Option<&'a serde_json::Value>)
    ensures
        opt_document(r) == descend(crate::payload::json_view(*input), texts(path@)),
{
    let mut cursor = input;
    let mut i: usize = 0;
    let ghost keys = texts(path@);
    proof {
        assert(keys.take(0) =~= Seq::<Seq<char>>::empty());
    }
    while i < path.len()
        invariant
            i <= path.len(),
            keys == texts(path@),
            Some(crate::payload::json_view(*cursor)) == descend(
                crate::payload::json_view(*input),
                keys.take(i as int),
            ),
        decreases path.len() - i,
    {
        proof {
            assert(keys.take(i + 1).drop_last() =~= keys.take(i as int));
            assert(keys.take(i + 1).last() == path@[i as int]@);
        }
        match member(cursor, path[i].as_str()) {
            Some(next) => {
                cursor = next;
            },
            None => {
                proof {
                    lemma_descend_stays_lost(crate::payload::json_view(*input), keys, i + 1);
                }
                return None;
            },
        }
        i = i + 1;
    }
    assert(keys.take(i as int) =~= keys);
    Some(cursor)
}

/// A path that is lost after `k` keys is lost for good.
pub proof fn lemma_descend_stays_lost(doc: Json, path: Seq<Seq<char>>, k: int)
    requires
        0 <= k <= path.len(),
        descend(doc, path.take(k)) is None,
    ensures
        descend(doc, path) is None,
    decreases path.len() - k,
{
    if k < path.len() {
        assert(path.take(k + 1).drop_last() =~= path.take(k));
        lemma_descend_stays_lost(doc, path, k + 1);
    } else {
        assert(path.take(k) =~= path);
    }
}

/// Copies of the values of a list.
fn copy_values(items: &Vec<serde_json::Value>) -> (out: Vec<serde_json::Value>)
    ensures
        documents(out@) == documents(items@),
{
    let mut out: Vec<serde_json::Value> = Vec::new();
    let mut i: usize = 0;
    while i < items.len()
        invariant
            i <= items.len(),
            out@.len() == i,
            forall|j: int|
                0 <= j < i ==> crate::payload::json_view(#[trigger] out@[j]) == crate::payload::json_view(
                    items@[j],
                ),
        decreases items.len() - i,
    {
        out.push(items[i].clone());
        i = i + 1;
    }
    assert(documents(out@) =~= documents(items@));
    out
}

/// The items that a `for.in` expression picks from the input: the array that the
/// expression's path leads to. A path that leads nowhere, or to something other than an
/// array, is a failure that names the expression.
pub fn resolve_iterable(expr: &str, input: &serde_json::Value) -> (r: Result<Vec<serde_json::Value>, StepError>)
    ensures
        match descend(crate::payload::json_view(*input), for_in_path(expr@)) {
            Some(found) => match array_items(found) {
                Some(items) => r is Ok && documents(r->Ok_0@) == items,
                None => r is Err && exists|text: Seq<char>| r->Err_0@ == #[trigger] not_an_array(expr@, text),
            },
            None => r is Err && r->Err_0@ == not_found(expr@),
        },
{
    let path = path_segments(expr);
    match follow(input, &path) {
        Some(target) => match target.as_array() {
            Some(items) => Ok(copy_values(items)),
            None => {
                let text = target.to_string();
                let message = String::from_str("for.in expression '").concat(expr).concat(
                    "' did not resolve to an array (got ",
                ).concat(text.as_str()).concat(")");
                let e = StepError::message(message.as_str());
                assert(e@ == not_an_array(expr@, text@));
                Err(e)
            },
        },
        None => {
            let message = String::from_str("for.in path '").concat(expr).concat("' not found in input");
            Err(StepError::message(message.as_str()))
        },
    }
}

/// The JSON pointer of a dotted expression such as `.pet.id`, which gives `/pet/id`.
pub fn build_json_pointer(expr: &str) -> (pointer: String)
    ensures
        pointer@ == json_pointer_of(expr@),
{
    let chars = chars_of(expr);
    let start = skip_leading(&chars, 0, '.');
    let ghost path = chars@.skip(start as int);
    let mut out = String::new();
    out.push('/');
    let mut i = start;
    proof {
        assert(chars@.skip(0) =~= chars@);
        assert(path.take(0) =~= Seq::<char>::empty());
        assert(out@ =~= seq!['/'] + pointer_escape(path.take(0)));
    }
    while i < chars.len()
        invariant
            start <= i <= chars.len(),
            path == chars@.skip(start as int),
            out@ == seq!['/'] + pointer_escape(path.take(i - start)),
        decreases chars.len() - i,
    {
        let c = chars[i];
        proof {
            assert(path.take(i + 1 - start).drop_last() =~= path.take(i - start));
            assert(path.take(i + 1 - start).last() == c);
        }
        if c == '.' {
            out.push('/');
        } else if c == '~' {
            out.push('~');
            out.push('0');
        } else if c == '/' {
            out.push('~');
            out.push('1');
        } else {
            out.push(c);
        }
        assert(out@ =~= seq!['/'] + pointer_escape(path.take(i + 1 - start)));
        i = i + 1;
    }
    assert(path.take(i - start) =~= path);
    out
}

} // verus!
