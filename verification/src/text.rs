//! Character-level scanning for the annotation mini-language.
//!
//! The language treats expressions as opaque syntax fragments: a fragment runs
//! until a separator (`,`, `)` or `::`) that stands outside every bracket pair
//! and outside every string or character literal.  The scanners here find the
//! boundaries of whitespace runs, identifiers and fragments; the grammar
//! itself lives in `parse`.

use vstd::prelude::*;
use vstd::string::StrSliceExecFns;

verus! {

/// Whitespace accepted between tokens of the mini-language.
pub open spec fn is_space_char(c: char) -> bool {
    c == ' ' || c == '\t' || c == '\n' || c == '\r'
}

/// First character of an identifier: a letter or an underscore.
pub open spec fn is_ident_start_char(c: char) -> bool {
    let u = c as u32;
    (97 <= u && u <= 122) || (65 <= u && u <= 90) || u == 95
}

/// Continuation character of an identifier: a letter, a digit or an underscore.
pub open spec fn is_ident_char(c: char) -> bool {
    let u = c as u32;
    is_ident_start_char(c) || (48 <= u && u <= 57)
}

/// End of the whitespace run that starts at `i`.
pub open spec fn space_end(s: Seq<char>, i: int) -> int
    recommends
        0 <= i <= s.len(),
    decreases s.len() - i,
{
    if i < 0 || i >= s.len() {
        s.len() as int
    } else if is_space_char(s[i]) {
        space_end(s, i + 1)
    } else {
        i
    }
}

/// End of the identifier-character run that starts at `i`.
pub open spec fn ident_end(s: Seq<char>, i: int) -> int
    recommends
        0 <= i <= s.len(),
    decreases s.len() - i,
{
    if i < 0 || i >= s.len() {
        s.len() as int
    } else if is_ident_char(s[i]) {
        ident_end(s, i + 1)
    } else {
        i
    }
}

/// Position reached from `j` by dropping trailing whitespace, never below `i`.
pub open spec fn rtrim_end(s: Seq<char>, i: int, j: int) -> int
    recommends
        0 <= i <= j <= s.len(),
    decreases j - i,
{
    if j <= i {
        i
    } else if is_space_char(s[j - 1]) {
        rtrim_end(s, i, j - 1)
    } else {
        j
    }
}

/// Where the fragment scanner stands: in plain text, inside a string literal,
/// or inside a character literal.
pub enum ScanMode {
    Norm,
    Str,
    Chr,
}

/// End of the opaque fragment that starts at `i` with `depth` open brackets.
///
/// The fragment ends at the first `,` or `)` at depth zero, or — when `dc` is
/// set — at a `::` at depth zero, or at the end of the input.  `dc` is set at
/// the top level of an annotation body, where `::` introduces the modifier
/// section; inside a fixture call's parentheses `::` is ordinary path syntax.  Brackets of the three kinds nest;
/// string literals (with backslash escapes) and character literals hide every
/// separator inside them.  A quote that introduces neither form (a lifetime)
/// is ordinary text.
pub open spec fn frag_end(s: Seq<char>, i: int, depth: int, dc: bool, mode: ScanMode) -> int
    recommends
        0 <= i <= s.len(),
        depth >= 0,
    decreases s.len() - i,
{
    if i < 0 || i >= s.len() {
        s.len() as int
    } else {
        let c = s[i];
        match mode {
            ScanMode::Str => {
                if c == '"' {
                    frag_end(s, i + 1, depth, dc, ScanMode::Norm)
                } else if c == '\\' && i + 1 < s.len() {
                    frag_end(s, i + 2, depth, dc, ScanMode::Str)
                } else {
                    frag_end(s, i + 1, depth, dc, ScanMode::Str)
                }
            },
            ScanMode::Chr => {
                if c == '\'' {
                    frag_end(s, i + 1, depth, dc, ScanMode::Norm)
                } else if c == '\\' && i + 1 < s.len() {
                    frag_end(s, i + 2, depth, dc, ScanMode::Chr)
                } else {
                    frag_end(s, i + 1, depth, dc, ScanMode::Chr)
                }
            },
            ScanMode::Norm => {
                if depth == 0 && (c == ',' || c == ')') {
                    i
                } else if dc && depth == 0 && c == ':' && i + 1 < s.len() && s[i + 1] == ':' {
                    i
                } else if c == '(' || c == '[' || c == '{' {
                    frag_end(s, i + 1, depth + 1, dc, ScanMode::Norm)
                } else if (c == ')' || c == ']' || c == '}') && depth > 0 {
                    frag_end(s, i + 1, depth - 1, dc, ScanMode::Norm)
                } else if c == '"' {
                    frag_end(s, i + 1, depth, dc, ScanMode::Str)
                } else if c == '\'' {
                    if i + 2 < s.len() && s[i + 1] != '\\' && s[i + 2] == '\'' {
                        frag_end(s, i + 3, depth, dc, ScanMode::Norm)
                    } else if i + 1 < s.len() && s[i + 1] == '\\' {
                        frag_end(s, i + 2, depth, dc, ScanMode::Chr)
                    } else {
                        frag_end(s, i + 1, depth, dc, ScanMode::Norm)
                    }
                } else {
                    frag_end(s, i + 1, depth, dc, ScanMode::Norm)
                }
            },
        }
    }
}

pub proof fn lemma_frag_end_bounds(s: Seq<char>, i: int, depth: int, dc: bool, mode: ScanMode)
    requires
        0 <= i <= s.len(),
        depth >= 0,
    ensures
        i <= frag_end(s, i, depth, dc, mode) <= s.len(),
    decreases s.len() - i,
{
    if i < s.len() {
        let c = s[i];
        match mode {
            ScanMode::Str => {
                if c == '"' {
                    lemma_frag_end_bounds(s, i + 1, depth, dc, ScanMode::Norm);
                } else if c == '\\' && i + 1 < s.len() {
                    lemma_frag_end_bounds(s, i + 2, depth, dc, ScanMode::Str);
                } else {
                    lemma_frag_end_bounds(s, i + 1, depth, dc, ScanMode::Str);
                }
            },
            ScanMode::Chr => {
                if c == '\'' {
                    lemma_frag_end_bounds(s, i + 1, depth, dc, ScanMode::Norm);
                } else if c == '\\' && i + 1 < s.len() {
                    lemma_frag_end_bounds(s, i + 2, depth, dc, ScanMode::Chr);
                } else {
                    lemma_frag_end_bounds(s, i + 1, depth, dc, ScanMode::Chr);
                }
            },
            ScanMode::Norm => {
                if depth == 0 && (c == ',' || c == ')') {
                } else if dc && depth == 0 && c == ':' && i + 1 < s.len() && s[i + 1] == ':' {
                } else if c == '(' || c == '[' || c == '{' {
                    lemma_frag_end_bounds(s, i + 1, depth + 1, dc, ScanMode::Norm);
                } else if (c == ')' || c == ']' || c == '}') && depth > 0 {
                    lemma_frag_end_bounds(s, i + 1, depth - 1, dc, ScanMode::Norm);
                } else if c == '"' {
                    lemma_frag_end_bounds(s, i + 1, depth, dc, ScanMode::Str);
                } else if c == '\'' {
                    if i + 2 < s.len() && s[i + 1] != '\\' && s[i + 2] == '\'' {
                        lemma_frag_end_bounds(s, i + 3, depth, dc, ScanMode::Norm);
                    } else if i + 1 < s.len() && s[i + 1] == '\\' {
                        lemma_frag_end_bounds(s, i + 2, depth, dc, ScanMode::Chr);
                    } else {
                        lemma_frag_end_bounds(s, i + 1, depth, dc, ScanMode::Norm);
                    }
                } else {
                    lemma_frag_end_bounds(s, i + 1, depth, dc, ScanMode::Norm);
                }
            },
        }
    }
}

/// Whether `c` is mini-language whitespace.
pub fn is_space(c: char) -> (r: bool)
    ensures
        r == is_space_char(c),
{
    c == ' ' || c == '\t' || c == '\n' || c == '\r'
}

/// Whether `c` may start an identifier.
pub fn is_ident_start(c: char) -> (r: bool)
    ensures
        r == is_ident_start_char(c),
{
    let u = c as u32;
    (97 <= u && u <= 122) || (65 <= u && u <= 90) || u == 95
}

/// Whether `c` may continue an identifier.
pub fn is_ident_continue(c: char) -> (r: bool)
    ensures
        r == is_ident_char(c),
{
    let u = c as u32;
    is_ident_start(c) || (48 <= u && u <= 57)
}

/// Skips whitespace from `i`, returning the first non-whitespace position.
pub fn skip_spaces(s: &str, n: usize, i: usize) -> (r: usize)
    requires
        n == s@.len(),
        i <= n,
    ensures
        r == space_end(s@, i as int),
        i <= r <= n,
{
    let mut j: usize = i;
    loop
        invariant
            i <= j <= n,
            n == s@.len(),
            space_end(s@, i as int) == space_end(s@, j as int),
        decreases n - j,
    {
        if j >= n {
            return j;
        }
        let c = s.get_char(j);
        if !is_space(c) {
            return j;
        }
        j = j + 1;
    }
}

/// Scans identifier characters from `i`, returning the first position past them.
pub fn scan_ident(s: &str, n: usize, i: usize) -> (r: usize)
    requires
        n == s@.len(),
        i <= n,
    ensures
        r == ident_end(s@, i as int),
        i <= r <= n,
{
    let mut j: usize = i;
    loop
        invariant
            i <= j <= n,
            n == s@.len(),
            ident_end(s@, i as int) == ident_end(s@, j as int),
        decreases n - j,
    {
        if j >= n {
            return j;
        }
        let c = s.get_char(j);
        if !is_ident_continue(c) {
            return j;
        }
        j = j + 1;
    }
}

/// Drops trailing whitespace from the range `[i, j)`.
pub fn trim_trailing(s: &str, i: usize, j: usize) -> (r: usize)
    requires
        i <= j <= s@.len(),
    ensures
        r == rtrim_end(s@, i as int, j as int),
        i <= r <= j,
{
    let mut k: usize = j;
    loop
        invariant
            i <= k <= j <= s@.len(),
            rtrim_end(s@, i as int, j as int) == rtrim_end(s@, i as int, k as int),
        decreases k,
    {
        if k <= i {
            return k;
        }
        let c = s.get_char(k - 1);
        if !is_space(c) {
            return k;
        }
        k = k - 1;
    }
}

/// Finds the end of the opaque fragment that starts at `i` (see [`frag_end`]).
pub fn scan_fragment(s: &str, n: usize, i: usize, dc: bool) -> (r: usize)
    requires
        n == s@.len(),
        i <= n,
    ensures
        r == frag_end(s@, i as int, 0, dc, ScanMode::Norm),
        i <= r <= n,
{
    let mut j: usize = i;
    let mut depth: usize = 0;
    let mut mode = ScanMode::Norm;
    proof {
        lemma_frag_end_bounds(s@, i as int, 0, dc, ScanMode::Norm);
    }
    loop
        invariant
            i <= j <= n,
            depth <= j,
            n == s@.len(),
            frag_end(s@, i as int, 0, dc, ScanMode::Norm) == frag_end(
                s@,
                j as int,
                depth as int,
                dc,
                mode,
            ),
            i <= frag_end(s@, i as int, 0, dc, ScanMode::Norm) <= n,
        decreases n - j,
    {
        if j >= n {
            return j;
        }
        let c = s.get_char(j);
        match mode {
            ScanMode::Str => {
                if c == '"' {
                    mode = ScanMode::Norm;
                    j = j + 1;
                } else if c == '\\' && j + 1 < n {
                    j = j + 2;
                } else {
                    j = j + 1;
                }
            },
            ScanMode::Chr => {
                if c == '\'' {
                    mode = ScanMode::Norm;
                    j = j + 1;
                } else if c == '\\' && j + 1 < n {
                    j = j + 2;
                } else {
                    j = j + 1;
                }
            },
            ScanMode::Norm => {
                if depth == 0 && (c == ',' || c == ')') {
                    return j;
                } else if dc && depth == 0 && c == ':' && j + 1 < n && s.get_char(j + 1) == ':' {
                    return j;
                } else if c == '(' || c == '[' || c == '{' {
                    depth = depth + 1;
                    j = j + 1;
                } else if (c == ')' || c == ']' || c == '}') && depth > 0 {
                    depth = depth - 1;
                    j = j + 1;
                } else if c == '"' {
                    mode = ScanMode::Str;
                    j = j + 1;
                } else if c == '\'' {
                    if n - j > 2 && s.get_char(j + 1) != '\\' && s.get_char(j + 2) == '\'' {
                        j = j + 3;
                    } else if j + 1 < n && s.get_char(j + 1) == '\\' {
                        mode = ScanMode::Chr;
                        j = j + 2;
                    } else {
                        j = j + 1;
                    }
                } else {
                    j = j + 1;
                }
            },
        }
    }
}

} // verus!
