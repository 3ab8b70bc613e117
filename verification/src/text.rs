//! Character-level helpers on strings and file names.
use vstd::prelude::*;

verus! {

/// The characters of `s`, in order.
pub fn chars_of(s: &str) -> (out: Vec<char>)
    ensures
        out@ == s@,
{
    broadcast use vstd::string::group_string_axioms;

    let mut out: Vec<char> = Vec::new();
    for c in it: s.chars()
        invariant
            it.seq() == s@,
            out@ == it.seq().subrange(0, it.index()),
    {
        out.push(c);
    }
    out
}

/// Appends one character to `s`.
///
/// Trusted: this is `String::push`, which the standard library documents as
/// appending the given `char` to the end of the string.
#[verifier::external_body]
pub(crate) fn push_char(s: &mut String, c: char)
    ensures
        final(s)@ == old(s)@.push(c),
{
    s.push(c)
}

/// The string made of `chars[from..to]`.
pub fn string_of(chars: &Vec<char>, from: usize, to: usize) -> (out: String)
    requires
        from <= to <= chars.len(),
    ensures
        out@ == chars@.subrange(from as int, to as int),
{
    let mut out = String::new();
    let mut i: usize = from;
    while i < to
        invariant
            from <= i <= to <= chars.len(),
            out@ == chars@.subrange(from as int, i as int),
        decreases to - i,
    {
        push_char(&mut out, chars[i]);
        i += 1;
    }
    out
}

/// Whether `pat` occurs in `text` starting at position `at`.
pub open spec fn occurs_at(text: Seq<char>, at: int, pat: Seq<char>) -> bool {
    0 <= at && at + pat.len() <= text.len() && text.subrange(at, at + pat.len()) == pat
}

/// Tests whether `pat` occurs in `text` at position `at`.
pub fn matches_at(text: &Vec<char>, at: usize, pat: &Vec<char>) -> (found: bool)
    ensures
        found == occurs_at(text@, at as int, pat@),
{
    if at > text.len() || pat.len() > text.len() - at {
        return false;
    }
    let mut k: usize = 0;
    while k < pat.len()
        invariant
            at + pat.len() <= text.len(),
            k <= pat.len(),
            forall|j: int| 0 <= j < k ==> text@[at + j] == pat@[j],
        decreases pat.len() - k,
    {
        if text[at + k] != pat[k] {
            return false;
        }
        k += 1;
    }
    assert(text@.subrange(at as int, at + pat.len()) =~= pat@);
    true
}

/// The position of the first `c` in `text`, if there is one.
pub fn find_first(text: &Vec<char>, c: char) -> (at: Option<usize>)
    ensures
        match at {
            Some(i) => {
                &&& i < text.len()
                &&& text@[i as int] == c
                &&& forall|j: int| 0 <= j < i ==> text@[j] != c
                &&& text@.index_of_first(c) == Some(i as int)
            },
            None => !text@.contains(c) && text@.index_of_first(c) is None,
        },
{
    let mut i: usize = 0;
    while i < text.len()
        invariant
            i <= text.len(),
            forall|j: int| 0 <= j < i ==> text@[j] != c,
        decreases text.len() - i,
    {
        if text[i] == c {
            proof {
                text@.index_of_first_ensures(c);
            }
            return Some(i);
        }
        i += 1;
    }
    proof {
        text@.index_of_first_ensures(c);
    }
    None
}

/// The position of the last `c` in `text`, if there is one.
pub fn find_last(text: &Vec<char>, c: char) -> (at: Option<usize>)
    ensures
        match at {
            Some(i) => {
                &&& i < text.len()
                &&& text@[i as int] == c
                &&& forall|j: int| i < j < text.len() ==> text@[j] != c
                &&& text@.index_of_last(c) == Some(i as int)
            },
            None => !text@.contains(c) && text@.index_of_last(c) is None,
        },
{
    let mut i: usize = text.len();
    while i > 0
        invariant
            i <= text.len(),
            forall|j: int| i <= j < text.len() ==> text@[j] != c,
        decreases i,
    {
        i -= 1;
        if text[i] == c {
            proof {
                text@.index_of_last_ensures(c);
            }
            return Some(i);
        }
    }
    proof {
        text@.index_of_last_ensures(c);
    }
    None
}

/// The stem of a file name: the name without its extension.
///
/// A name without a dot, or whose only dot is its first character, is its
/// own stem. Any other name's stem is what stands before its last dot.
pub open spec fn stem_of(name: Seq<char>) -> Seq<char> {
    match name.index_of_last('.') {
        Some(dot) => if dot > 0 {
            name.subrange(0, dot)
        } else {
            name
        },
        None => name,
    }
}

/// The extension of a file name: what follows its last dot, where the name
/// has a stem before that dot.
pub open spec fn extension_of(name: Seq<char>) -> Option<Seq<char>> {
    match name.index_of_last('.') {
        Some(dot) => if dot > 0 {
            Some(name.subrange(dot + 1, name.len() as int))
        } else {
            None
        },
        None => None,
    }
}

/// The stem of the file name `name`.
pub fn file_stem(name: &str) -> (stem: String)
    ensures
        stem@ == stem_of(name@),
{
    let chars = chars_of(name);
    match find_last(&chars, '.') {
        Some(dot) => if dot > 0 {
            string_of(&chars, 0, dot)
        } else {
            string_of(&chars, 0, chars.len())
        },
        None => string_of(&chars, 0, chars.len()),
    }
}

/// The extension of the file name `name`, if it has one.
pub fn file_extension(name: &str) -> (ext: Option<String>)
    ensures
        match ext {
            Some(e) => extension_of(name@) == Some(e@),
            None => extension_of(name@) is None,
        },
{
    let chars = chars_of(name);
    match find_last(&chars, '.') {
        Some(dot) => if dot > 0 {
            Some(string_of(&chars, dot + 1, chars.len()))
        } else {
            None
        },
        None => None,
    }
}

/// `text` with every occurrence of `from` replaced by `to`. Occurrences are
/// found from the left and do not overlap; an empty `from` occurs nowhere.
pub open spec fn replaced(text: Seq<char>, from: Seq<char>, to: Seq<char>) -> Seq<char>
    decreases text.len(),
{
    if from.len() == 0 || text.len() == 0 {
        text
    } else if occurs_at(text, 0, from) {
        to + replaced(text.subrange(from.len() as int, text.len() as int), from, to)
    } else {
        seq![text[0]] + replaced(text.subrange(1, text.len() as int), from, to)
    }
}

/// Replaces every occurrence of `from` in `text` by `to`.
pub fn replace_all(text: &Vec<char>, from: &Vec<char>, to: &Vec<char>) -> (out: Vec<char>)
    ensures
        out@ == replaced(text@, from@, to@),
{
    let mut out: Vec<char> = Vec::new();
    let mut i: usize = 0;
    if from.len() == 0 {
        while i < text.len()
            invariant
                i <= text.len(),
                out@ == text@.subrange(0, i as int),
            decreases text.len() - i,
        {
            out.push(text[i]);
            i += 1;
        }
        return out;
    }
    assert(text@.subrange(0, text.len() as int) =~= text@);
    while i < text.len()
        invariant
            i <= text.len(),
            from.len() > 0,
            replaced(text@, from@, to@) == out@ + replaced(
                text@.subrange(i as int, text.len() as int),
                from@,
                to@,
            ),
        decreases text.len() - i,
    {
        let ghost rest = text@.subrange(i as int, text.len() as int);
        let ghost done = out@;
        if matches_at(text, i, from) {
            assert(occurs_at(rest, 0, from@)) by {
                assert(rest.subrange(0, from.len() as int) =~= text@.subrange(
                    i as int,
                    i + from.len(),
                ));
            }
            let mut k: usize = 0;
            while k < to.len()
                invariant
                    k <= to.len(),
                    out@ == done + to@.subrange(0, k as int),
                decreases to.len() - k,
            {
                out.push(to[k]);
                k += 1;
            }
            i += from.len();
            assert(rest.subrange(from.len() as int, rest.len() as int) =~= text@.subrange(
                i as int,
                text.len() as int,
            ));
        } else {
            assert(!occurs_at(rest, 0, from@)) by {
                if from.len() <= rest.len() {
                    assert(rest.subrange(0, from.len() as int) =~= text@.subrange(
                        i as int,
                        i + from.len(),
                    ));
                }
            }
            out.push(text[i]);
            i += 1;
            assert(rest.subrange(1, rest.len() as int) =~= text@.subrange(
                i as int,
                text.len() as int,
            ));
        }
    }
    out
}

/// The last component of a path: what follows its last slash.
pub open spec fn file_name_of(path: Seq<char>) -> Seq<char> {
    match path.index_of_last('/') {
        Some(slash) => path.subrange(slash + 1, path.len() as int),
        None => path,
    }
}

/// The last component of the path `path`.
pub fn file_name(path: &str) -> (name: String)
    ensures
        name@ == file_name_of(path@),
{
    let chars = chars_of(path);
    match find_last(&chars, '/') {
        Some(slash) => string_of(&chars, slash + 1, chars.len()),
        None => string_of(&chars, 0, chars.len()),
    }
}

/// The character that writes the digit `d`.
pub open spec fn digit_of(d: nat) -> char
    recommends
        d < 10,
{
    if d == 0 {
        '0'
    } else if d == 1 {
        '1'
    } else if d == 2 {
        '2'
    } else if d == 3 {
        '3'
    } else if d == 4 {
        '4'
    } else if d == 5 {
        '5'
    } else if d == 6 {
        '6'
    } else if d == 7 {
        '7'
    } else if d == 8 {
        '8'
    } else {
        '9'
    }
}

/// The number `n` written in decimal, without leading zeros.
pub open spec fn decimal_of(n: nat) -> Seq<char>
    decreases n,
{
    if n < 10 {
        seq![digit_of(n)]
    } else {
        decimal_of(n / 10).push(digit_of(n % 10))
    }
}

fn digit(d: usize) -> (c: char)
    requires
        d < 10,
    ensures
        c == digit_of(d as nat),
{
    if d == 0 {
        '0'
    } else if d == 1 {
        '1'
    } else if d == 2 {
        '2'
    } else if d == 3 {
        '3'
    } else if d == 4 {
        '4'
    } else if d == 5 {
        '5'
    } else if d == 6 {
        '6'
    } else if d == 7 {
        '7'
    } else if d == 8 {
        '8'
    } else {
        '9'
    }
}

/// Writes `n` in decimal.
pub fn decimal(n: usize) -> (out: String)
    ensures
        out@ == decimal_of(n as nat),
    decreases n,
{
    if n < 10 {
        let mut out = String::new();
        push_char(&mut out, digit(n));
        out
    } else {
        let mut out = decimal(n / 10);
        push_char(&mut out, digit(n % 10));
        out
    }
}

} // verus!
