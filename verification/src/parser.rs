//! The placeholder parser: recognizes `%{NAME}`, `%{NAME:ALIAS}`,
//! `%{NAME=DEFINITION}` and `%{NAME:ALIAS=DEFINITION}` occurrences inside a
//! working string, scanning left to right and, at each start position, taking
//! each component as the maximal run of its character class.

use vstd::prelude::*;

verus! {

/// Characters allowed in a definition name: the ASCII range from `A` to `z`
/// (which also spans `[`, `\`, `]`, `^`, `_` and the backquote) plus digits.
pub open spec fn is_name_char(c: char) -> bool {
    (65 <= c as u32 && c as u32 <= 122) || (48 <= c as u32 && c as u32 <= 57)
}

/// Whitespace characters (the Unicode white-space class).
pub open spec fn is_space_char(c: char) -> bool {
    ||| (9 <= c as u32 && c as u32 <= 13)
    ||| c as u32 == 32
    ||| c as u32 == 0x85
    ||| c as u32 == 0xa0
    ||| c as u32 == 0x1680
    ||| (0x2000 <= c as u32 && c as u32 <= 0x200a)
    ||| c as u32 == 0x2028
    ||| c as u32 == 0x2029
    ||| c as u32 == 0x202f
    ||| c as u32 == 0x205f
    ||| c as u32 == 0x3000
}

/// Characters allowed in an alias: name characters plus underscore, colon,
/// semicolon, slash, whitespace and dot.
pub open spec fn is_alias_char(c: char) -> bool {
    ||| is_name_char(c)
    ||| c == '_'
    ||| c == ':'
    ||| c == ';'
    ||| c == '/'
    ||| c == '.'
    ||| is_space_char(c)
}

/// Characters allowed in an inline definition: anything but braces.
pub open spec fn is_def_char(c: char) -> bool {
    c != '{' && c != '}'
}

/// A character class, for scanning maximal runs.
#[derive(Clone, Copy, PartialEq, Eq)]
pub enum CharClass {
    Name,
    Alias,
    Def,
}

pub open spec fn class_pred(k: CharClass) -> spec_fn(char) -> bool {
    match k {
        CharClass::Name => |c: char| is_name_char(c),
        CharClass::Alias => |c: char| is_alias_char(c),
        CharClass::Def => |c: char| is_def_char(c),
    }
}

/// End of the maximal run of characters satisfying `p`, starting at `i`.
pub open spec fn run_end(w: Seq<char>, i: int, p: spec_fn(char) -> bool) -> int
    decreases w.len() - i,
{
    if i < 0 || i >= w.len() || !p(w[i]) {
        i
    } else {
        run_end(w, i + 1, p)
    }
}

pub proof fn lemma_run_end(w: Seq<char>, i: int, p: spec_fn(char) -> bool)
    requires
        0 <= i <= w.len(),
    ensures
        i <= run_end(w, i, p) <= w.len(),
        forall|j: int| i <= j < run_end(w, i, p) ==> p(w[j]),
        run_end(w, i, p) < w.len() ==> !p(w[run_end(w, i, p)]),
    decreases w.len() - i,
{
    if !(i < 0 || i >= w.len() || !p(w[i])) {
        lemma_run_end(w, i + 1, p);
    }
}

/// The components of one parsed placeholder: the end of the name run, the
/// optional alias run, the optional inline-definition run, and the position
/// one past the closing brace. All positions index into the working string.
pub struct PhParts {
    pub name_end: int,
    pub alias: Option<(int, int)>,
    pub def: Option<(int, int)>,
    pub end: int,
}

/// The continuation of a placeholder parse after name (and optional alias):
/// an optional `=DEFINITION`, then the closing brace.
pub open spec fn ph_tail(
    w: Seq<char>,
    name_end: int,
    alias: Option<(int, int)>,
    pos: int,
) -> Option<PhParts> {
    if pos < w.len() && w[pos] == '=' {
        let de = run_end(w, pos + 1, class_pred(CharClass::Def));
        if de == pos + 1 {
            None
        } else if de < w.len() && w[de] == '}' {
            Some(PhParts { name_end, alias, def: Some((pos + 1, de)), end: de + 1 })
        } else {
            None
        }
    } else if pos < w.len() && w[pos] == '}' {
        Some(PhParts { name_end, alias, def: None, end: pos + 1 })
    } else {
        None
    }
}

/// The placeholder starting at position `i` of `w`, if one starts there:
/// `%{`, a non-empty name run, optionally `:` and a non-empty alias run,
/// optionally `=` and a non-empty definition run, then `}`.
pub open spec fn ph_at(w: Seq<char>, i: int) -> Option<PhParts> {
    if !(0 <= i && i + 2 <= w.len() && w[i] == '%' && w[i + 1] == '{') {
        None
    } else {
        let ne = run_end(w, i + 2, class_pred(CharClass::Name));
        if ne == i + 2 {
            None
        } else if ne < w.len() && w[ne] == ':' {
            let ae = run_end(w, ne + 1, class_pred(CharClass::Alias));
            if ae == ne + 1 {
                None
            } else {
                ph_tail(w, ne, Some((ne + 1, ae)), ae)
            }
        } else {
            ph_tail(w, ne, None, ne)
        }
    }
}

/// Start of the first placeholder in `w` at or after `i`, if any.
pub open spec fn find_ph_from(w: Seq<char>, i: int) -> Option<int>
    decreases w.len() - i,
{
    if i < 0 || i >= w.len() {
        None
    } else if ph_at(w, i) is Some {
        Some(i)
    } else {
        find_ph_from(w, i + 1)
    }
}

/// Everything the expander needs to know about a parsed placeholder, with the
/// positions of its parts as indices into the working string.
pub struct Ph {
    pub start: usize,
    pub name_end: usize,
    pub alias: Option<(usize, usize)>,
    pub def: Option<(usize, usize)>,
    pub end: usize,
}

pub open spec fn opt_rng(o: Option<(usize, usize)>) -> Option<(int, int)> {
    match o {
        Some((a, b)) => Some((a as int, b as int)),
        None => None,
    }
}

/// The spec-level parts described by an executable `Ph`.
pub open spec fn ph_parts_of(p: Ph) -> PhParts {
    PhParts {
        name_end: p.name_end as int,
        alias: opt_rng(p.alias),
        def: opt_rng(p.def),
        end: p.end as int,
    }
}

fn char_in_class(k: CharClass, c: char) -> (r: bool)
    ensures
        r == class_pred(k)(c),
{
    let u = c as u32;
    match k {
        CharClass::Name => (65 <= u && u <= 122) || (48 <= u && u <= 57),
        CharClass::Alias => {
            (65 <= u && u <= 122) || (48 <= u && u <= 57) || c == '_' || c == ':' || c == ';'
                || c == '/' || c == '.' || (9 <= u && u <= 13) || u == 32 || u == 0x85 || u == 0xa0
                || u == 0x1680 || (0x2000 <= u && u <= 0x200a) || u == 0x2028 || u == 0x2029
                || u == 0x202f || u == 0x205f || u == 0x3000
        },
        CharClass::Def => c != '{' && c != '}',
    }
}

/// End of the maximal run of characters of class `k` starting at `from`.
fn scan_run(w: &Vec<char>, from: usize, k: CharClass) -> (r: usize)
    requires
        from <= w@.len(),
    ensures
        r as int == run_end(w@, from as int, class_pred(k)),
        from <= r <= w@.len(),
{
    let wn = w.len();
    let mut j = from;
    while j < wn && char_in_class(k, w[j])
        invariant
            wn == w@.len(),
            from <= j <= wn,
            run_end(w@, from as int, class_pred(k)) == run_end(w@, j as int, class_pred(k)),
        decreases wn - j,
    {
        j += 1;
    }
    j
}

/// Parses the placeholder starting at position `i`, if one starts there.
fn try_ph_at(w: &Vec<char>, i: usize) -> (r: Option<Ph>)
    requires
        i < w@.len(),
    ensures
        match r {
            Some(ph) => ph.start == i && ph_at(w@, i as int) == Some(ph_parts_of(ph)),
            None => ph_at(w@, i as int) is None,
        },
{
    let wn = w.len();
    if i + 1 >= wn {
        return None;
    }
    if w[i] != '%' || w[i + 1] != '{' {
        return None;
    }
    let ne = scan_run(w, i + 2, CharClass::Name);
    if ne == i + 2 {
        return None;
    }
    let mut alias: Option<(usize, usize)> = None;
    let mut pos = ne;
    if ne < wn && w[ne] == ':' {
        let ae = scan_run(w, ne + 1, CharClass::Alias);
        if ae == ne + 1 {
            return None;
        }
        alias = Some((ne + 1, ae));
        pos = ae;
    }
    if pos < wn && w[pos] == '=' {
        let de = scan_run(w, pos + 1, CharClass::Def);
        if de == pos + 1 {
            return None;
        }
        if de < wn && w[de] == '}' {
            return Some(Ph { start: i, name_end: ne, alias, def: Some((pos + 1, de)), end: de + 1 });
        }
        return None;
    }
    if pos < wn && w[pos] == '}' {
        return Some(Ph { start: i, name_end: ne, alias, def: None, end: pos + 1 });
    }
    None
}

/// Finds the first placeholder in `w`, scanning start positions left to right.
pub fn find_placeholder(w: &Vec<char>) -> (r: Option<Ph>)
    ensures
        match r {
            Some(ph) => find_ph_from(w@, 0) == Some(ph.start as int) && ph_at(w@, ph.start as int)
                == Some(ph_parts_of(ph)),
            None => find_ph_from(w@, 0) is None,
        },
{
    let wn = w.len();
    let mut i: usize = 0;
    while i < wn
        invariant
            wn == w@.len(),
            i <= wn,
            find_ph_from(w@, 0) == find_ph_from(w@, i as int),
        decreases wn - i,
    {
        match try_ph_at(w, i) {
            Some(ph) => {
                return Some(ph);
            },
            None => {
                i += 1;
            },
        }
    }
    None
}

/// Bounds on the parts of a parsed placeholder, as the expander needs them.
pub proof fn lemma_ph_at_bounds(w: Seq<char>, i: int)
    requires
        ph_at(w, i) is Some,
    ensures
        ({
            let p = ph_at(w, i)->Some_0;
            &&& 0 <= i
            &&& i + 3 <= p.name_end
            &&& p.name_end + 1 <= p.end
            &&& i + 2 <= p.end - 1
            &&& p.end <= w.len()
            &&& (p.alias matches Some((a, b)) ==> p.name_end + 1 == a && a < b && b <= p.end - 1)
            &&& (p.def matches Some((a, b)) ==> p.name_end < a && a <= b && b == p.end - 1)
        }),
{
    let ne = run_end(w, i + 2, class_pred(CharClass::Name));
    lemma_run_end(w, i + 2, class_pred(CharClass::Name));
    if ne < w.len() && w[ne] == ':' {
        lemma_run_end(w, ne + 1, class_pred(CharClass::Alias));
        let ae = run_end(w, ne + 1, class_pred(CharClass::Alias));
        if 0 <= ae && ae + 1 <= w.len() {
            lemma_run_end(w, ae + 1, class_pred(CharClass::Def));
        }
    } else {
        if 0 <= ne && ne + 1 <= w.len() {
            lemma_run_end(w, ne + 1, class_pred(CharClass::Def));
        }
    }
}

} // verus!
