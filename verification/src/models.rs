//! The names of models, and the list of the models that are installed.

use vstd::prelude::*;
use crate::text::{
    chars_of, is_white_space, is_whitespace, leading_white_space, lemma_leading_white_space, str_eq,
};

verus! {

/// `s` with every `from` replaced by `to`.
pub open spec fn replaced(s: Seq<char>, from: char, to: char) -> Seq<char> {
    Seq::new(
        s.len(),
        |i: int|
            if s[i] == from {
                to
            } else {
                s[i]
            },
    )
}

/// The prefix that the public library of models puts before a name.
pub open spec fn library_prefix() -> Seq<char> {
    "registry.ollama.ai/library/"@
}

/// The name under which a model is listed once it is installed: a name from
/// the public library loses the library's prefix and has `:` for each `/`;
/// any other name is listed as it is.
pub open spec fn listed_name(model_name: Seq<char>) -> Seq<char> {
    let prefix = library_prefix();
    if prefix.len() <= model_name.len() && model_name.take(prefix.len() as int) == prefix {
        replaced(model_name.skip(prefix.len() as int), '/', ':')
    } else {
        model_name
    }
}

/// The characters of `s` from position `start` on, with every `from`
/// replaced by `to`, which `to_text` spells.
fn replace_from(s: &str, start: usize, from: char, to: char, to_text: &str) -> (out: String)
    requires
        start <= s@.len(),
        to_text@ == seq![to],
    ensures
        out@ == replaced(s@.skip(start as int), from, to),
{
    let chars = chars_of(s);
    let ghost target = replaced(s@.skip(start as int), from, to);
    let mut out = String::new();
    let mut i: usize = start;
    while i < chars.len()
        invariant
            start <= i <= chars.len(),
            chars@ == s@,
            to_text@ == seq![to],
            target == replaced(s@.skip(start as int), from, to),
            out@ == target.take(i - start),
        decreases chars.len() - i,
    {
        if chars[i] == from {
            out.append(to_text);
        } else {
            out.append(s.substring_char(i, i + 1));
        }
        assert(out@ =~= target.take(i + 1 - start));
        i += 1;
    }
    assert(target.take(chars.len() - start) =~= target);
    out
}

/// The name under which the registry knows a model: its name with `/` for
/// each `:`.
pub fn registry_name(model_name: &str) -> (name: String)
    ensures
        name@ == replaced(model_name@, ':', '/'),
{
    proof {
        reveal_strlit("/");
        assert("/"@ =~= seq!['/']);
    }
    let name = replace_from(model_name, 0, ':', '/', "/");
    assert(model_name@.skip(0) =~= model_name@);
    name
}

/// The name under which a model is listed once it is installed.
pub fn listing_name(model_name: &str) -> (name: String)
    ensures
        name@ == listed_name(model_name@),
{
    let chars = chars_of(model_name);
    let prefix = chars_of("registry.ollama.ai/library/");
    if prefix.len() <= chars.len() {
        let mut i: usize = 0;
        while i < prefix.len()
            invariant
                i <= prefix.len() <= chars.len(),
                chars@ == model_name@,
                prefix@ == library_prefix(),
                forall|j: int| 0 <= j < i ==> chars@[j] == prefix@[j],
            decreases prefix.len() - i,
        {
            if chars[i] != prefix[i] {
                assert(chars@.take(prefix.len() as int)[i as int] != prefix@[i as int]);
                return String::from_str(model_name);
            }
            i += 1;
        }
        assert(chars@.take(prefix.len() as int) =~= prefix@);
        proof {
            reveal_strlit(":");
            assert(":"@ =~= seq![':']);
        }
        replace_from(model_name, prefix.len(), '/', ':', ":")
    } else {
        String::from_str(model_name)
    }
}

/// `text` in lower case, as `str::to_lowercase` lowers it.
pub uninterp spec fn lowercase_of(text: Seq<char>) -> Seq<char>;

/// `str::to_lowercase`: the text in lower case, which is `lowercase_of` the
/// text.
#[verifier::external_body]
fn lowercase(text: &str) -> (low: String)
    ensures
        low@ == lowercase_of(text@),
{
    text.to_lowercase()
}

/// Number of characters at the front of `s` that are not white space.
pub open spec fn word_length(s: Seq<char>) -> nat
    decreases s.len(),
{
    if s.len() > 0 && !is_white_space(s[0]) {
        1 + word_length(s.drop_first())
    } else {
        0
    }
}

/// The first word of `line`: what stands between the white space at its
/// front and the next white space. It is empty where the line holds no word.
pub open spec fn first_word(line: Seq<char>) -> Seq<char> {
    let rest = line.skip(leading_white_space(line) as int);
    rest.take(word_length(rest) as int)
}

/// Number of characters of `s` before its first line feed.
pub open spec fn line_length(s: Seq<char>) -> nat
    decreases s.len(),
{
    if s.len() > 0 && s[0] != '\n' {
        1 + line_length(s.drop_first())
    } else {
        0
    }
}

/// Whether a line of the list names the model: its first word, lowered, is
/// the wanted name, lowered.
pub open spec fn line_names(line: Seq<char>, wanted: Seq<char>) -> bool {
    first_word(line).len() > 0 && lowercase_of(first_word(line)) == lowercase_of(wanted)
}

/// Whether some line of `lines` names the model.
pub open spec fn some_line_names(lines: Seq<char>, wanted: Seq<char>) -> bool
    decreases lines.len(),
{
    if lines.len() == 0 {
        false
    } else {
        let n = line_length(lines);
        line_names(lines.take(n as int), wanted) || (n < lines.len() && some_line_names(
            lines.skip(n as int + 1),
            wanted,
        ))
    }
}

/// Whether a list of installed models holds the model. The first line of the
/// list is its header and names no model.
pub open spec fn is_listed(listing: Seq<char>, model_name: Seq<char>) -> bool {
    let n = line_length(listing);
    n < listing.len() && some_line_names(listing.skip(n as int + 1), listed_name(model_name))
}

proof fn lemma_line_length(s: Seq<char>, n: int)
    requires
        0 <= n <= s.len(),
        forall|j: int| 0 <= j < n ==> #[trigger] s[j] != '\n',
        n == s.len() || s[n] == '\n',
    ensures
        line_length(s) == n,
    decreases n,
{
    if n > 0 {
        let t = s.drop_first();
        assert forall|j: int| 0 <= j < n - 1 implies #[trigger] t[j] != '\n' by {
            assert(t[j] == s[j + 1]);
        }
        if n < s.len() {
            assert(t[n - 1] == s[n]);
        }
        lemma_line_length(t, n - 1);
    }
}

proof fn lemma_word_length(s: Seq<char>, n: int)
    requires
        0 <= n <= s.len(),
        forall|j: int| 0 <= j < n ==> !is_white_space(#[trigger] s[j]),
        n == s.len() || is_white_space(s[n]),
    ensures
        word_length(s) == n,
    decreases n,
{
    if n > 0 {
        let t = s.drop_first();
        assert forall|j: int| 0 <= j < n - 1 implies !is_white_space(#[trigger] t[j]) by {
            assert(t[j] == s[j + 1]);
        }
        if n < s.len() {
            assert(t[n - 1] == s[n]);
        }
        lemma_word_length(t, n - 1);
    }
}

/// Whether the line of `text` between the positions `start` and `end` names
/// the model.
fn line_matches(text: &str, chars: &Vec<char>, start: usize, end: usize, wanted: &str) -> (r: bool)
    requires
        chars@ == text@,
        start <= end <= chars.len(),
    ensures
        r == line_names(chars@.subrange(start as int, end as int), wanted@),
{
    let ghost line = chars@.subrange(start as int, end as int);
    let mut a: usize = start;
    while a < end && is_whitespace(chars[a])
        invariant
            start <= a <= end <= chars.len(),
            line == chars@.subrange(start as int, end as int),
            forall|j: int| 0 <= j < a - start ==> is_white_space(#[trigger] line[j]),
        decreases end - a,
    {
        a += 1;
    }
    proof {
        lemma_leading_white_space(line, a - start);
    }
    let mut b: usize = a;
    let ghost rest = line.skip(a - start);
    while b < end && !is_whitespace(chars[b])
        invariant
            a <= b <= end <= chars.len(),
            start <= a,
            line == chars@.subrange(start as int, end as int),
            rest == line.skip(a - start),
            forall|j: int| 0 <= j < b - a ==> !is_white_space(#[trigger] rest[j]),
        decreases end - b,
    {
        b += 1;
    }
    proof {
        lemma_word_length(rest, b - a);
        assert(rest.take(b - a) =~= chars@.subrange(a as int, b as int));
    }
    if b == a {
        return false;
    }
    let word = lowercase(text.substring_char(a, b));
    let low = lowercase(wanted);
    str_eq(word.as_str(), low.as_str())
}

/// The position at which the line that begins at `start` ends: that of the
/// next line feed, or the end of the text.
fn line_end(chars: &Vec<char>, start: usize) -> (end: usize)
    requires
        start <= chars.len(),
    ensures
        start <= end <= chars.len(),
        end - start == line_length(chars@.skip(start as int)),
{
    let ghost rest = chars@.skip(start as int);
    let mut end: usize = start;
    while end < chars.len() && chars[end] != '\n'
        invariant
            start <= end <= chars.len(),
            rest == chars@.skip(start as int),
            forall|j: int| 0 <= j < end - start ==> #[trigger] rest[j] != '\n',
        decreases chars.len() - end,
    {
        end += 1;
    }
    proof {
        lemma_line_length(rest, end - start);
    }
    end
}

/// Whether a list of installed models, as the model runner prints it, holds
/// the model.
pub fn model_is_listed(listing: &str, model_name: &str) -> (r: bool)
    ensures
        r == is_listed(listing@, model_name@),
{
    let chars = chars_of(listing);
    let wanted = listing_name(model_name);
    assert(chars@.skip(0) =~= chars@);
    let header_end = line_end(&chars, 0);
    if header_end >= chars.len() {
        return false;
    }
    let mut start: usize = header_end + 1;
    while start < chars.len()
        invariant
            start <= chars.len(),
            chars@ == listing@,
            wanted@ == listed_name(model_name@),
            is_listed(listing@, model_name@) == some_line_names(
                chars@.skip(start as int),
                wanted@,
            ),
        decreases chars.len() - start,
    {
        let end = line_end(&chars, start);
        let ghost rest = chars@.skip(start as int);
        assert(rest.take(end - start) =~= chars@.subrange(start as int, end as int));
        if line_matches(listing, &chars, start, end, wanted.as_str()) {
            return true;
        }
        if end >= chars.len() {
            return false;
        }
        assert(rest.skip(end - start + 1) =~= chars@.skip(end + 1));
        start = end + 1;
    }
    false
}

} // verus!
