//! The boundary to the host regular-expression engine (the `regex` crate).
//! Everything the library assumes of the engine is collected here: the two
//! engine types are declared opaque, and each engine call sits behind one
//! wrapper whose contract is stated over named results of the call.

use vstd::prelude::*;

verus! {

#[verifier::external_type_specification]
#[verifier::external_body]
pub struct ExRegex(regex::Regex);

#[verifier::external_type_specification]
#[verifier::external_body]
pub struct ExCaptures<'h>(regex::Captures<'h>);

/// Whether the engine accepts `re` as a regex. `regex::Regex::new` is a
/// function of its argument alone, so the outcome has a name.
pub uninterp spec fn regex_ok(re: Seq<char>) -> bool;

/// The pattern string a compiled regex was built from: what
/// `regex::Regex::as_str` returns, retained verbatim by the engine.
pub uninterp spec fn regex_src(r: regex::Regex) -> Seq<char>;

/// Whether the regex whose pattern string is `re` matches anywhere in `text`:
/// the outcome of `regex::Regex::captures`. Every regex this library holds is
/// built by `regex::Regex::new`, under the engine's default configuration, so
/// the outcome is a function of the pattern string and the haystack alone.
pub uninterp spec fn regex_match(re: Seq<char>, text: Seq<char>) -> bool;

/// What a captures object holds under a given group name: the text of
/// `regex::Captures::name`, a function of the captures value and the name.
pub uninterp spec fn cap_named(c: regex::Captures, name: Seq<char>) -> Option<Seq<char>>;

/// The number of capture groups a captures object reports, the implicit
/// whole-match group included: what `regex::Captures::len` returns.
pub uninterp spec fn cap_count(c: regex::Captures) -> nat;

/// Relies on `regex::Regex::new`: it compiles the pattern or reports why not,
/// deterministically in the pattern, and the compiled value retains the
/// pattern string (`regex::Regex::as_str`).
#[verifier::external_body]
pub(crate) fn regex_new(re: &str) -> (r: Option<regex::Regex>)
    ensures
        r is Some <==> regex_ok(re@),
        r matches Some(rx) ==> regex_src(rx) == re@,
{
    match regex::Regex::new(re) {
        Ok(rx) => Some(rx),
        Err(_) => None,
    }
}

/// Relies on `regex::Regex::captures`: it returns captures for the leftmost
/// match in the haystack, or `None` when the regex matches nowhere in it.
#[verifier::external_body]
pub(crate) fn regex_captures<'h>(rx: &regex::Regex, text: &'h str) -> (r: Option<regex::Captures<'h>>)
    ensures
        r is Some <==> regex_match(regex_src(*rx), text@),
{
    rx.captures(text)
}

/// Relies on `regex::Captures::name` and `regex::Match::as_str`: together they
/// give the text captured by the named group, or `None` when the regex has no
/// such group or the group did not participate in the match.
#[verifier::external_body]
pub(crate) fn captures_name<'h>(c: &regex::Captures<'h>, name: &str) -> (r: Option<&'h str>)
    ensures
        match r {
            Some(s) => cap_named(*c, name@) == Some(s@),
            None => cap_named(*c, name@) is None,
        },
{
    match c.name(name) {
        Some(m) => Some(m.as_str()),
        None => None,
    }
}

/// Relies on `regex::Captures::len`: it returns the total number of capture
/// groups of the pattern, which includes the implicit whole-match group, so it
/// is at least one for any captures object the engine hands out.
#[verifier::external_body]
pub(crate) fn captures_count(c: &regex::Captures) -> (r: usize)
    ensures
        r as nat == cap_count(*c),
        r >= 1,
{
    c.len()
}

/// Relies on `std::string::String::push`: it appends the character.
#[verifier::external_body]
pub(crate) fn push_char(s: &mut String, c: char)
    ensures
        final(s)@ == old(s)@.push(c),
{
    s.push(c);
}

/// The characters of `s`, as a vector.
pub(crate) fn chars_of(s: &str) -> (r: Vec<char>)
    ensures
        r@ == s@,
{
    let mut it = s.chars();
    let mut out: Vec<char> = Vec::new();
    proof {
        vstd::string::axiom_spec_iter(s);
    }
    loop
        invariant
            vstd::std_specs::iter::IteratorSpec::obeys_prophetic_iter_laws(&it),
            vstd::std_specs::iter::IteratorSpec::decrease(&it) is Some,
            out@ + vstd::std_specs::iter::IteratorSpec::remaining(&it) == s@,
        decreases vstd::std_specs::iter::IteratorSpec::decrease(&it)->Some_0,
    {
        broadcast use vstd::string::next_postcondition;

        match it.next() {
            Some(c) => {
                out.push(c);
            },
            None => {
                assert(out@ =~= s@);
                return out;
            },
        }
    }
}

/// The characters of `v`, as a string.
pub(crate) fn string_of(v: &Vec<char>) -> (r: String)
    ensures
        r@ == v@,
{
    let mut s = String::new();
    let mut k: usize = 0;
    while k < v.len()
        invariant
            k <= v@.len(),
            s@ == v@.take(k as int),
        decreases v@.len() - k,
    {
        push_char(&mut s, v[k]);
        assert(v@.take(k + 1) =~= v@.take(k as int).push(v@[k as int]));
        k += 1;
    }
    assert(v@.take(v@.len() as int) =~= v@);
    s
}

} // verus!
