//! File-name classification: which directory entries count as images.
//!
//! A file name's extension is the text after its last dot; a name without a
//! dot, or whose only dot is its leading character (a hidden file), has no
//! extension. A file is an image when its extension is `jpg`, `jpeg`, `png`
//! or `webp`, compared without regard to ASCII case.

use vstd::prelude::*;
use vstd::string::StrSliceExecFns;

verus! {

/// The index of the last `.` in `s`, if any.
pub open spec fn last_dot_index(s: Seq<char>) -> Option<int>
    decreases s.len(),
{
    if s.len() == 0 {
        None
    } else if s.last() == '.' {
        Some(s.len() - 1)
    } else {
        last_dot_index(s.drop_last())
    }
}

/// The extension of file name `s`: the text after the last dot. A name
/// without a dot has none; so has a name whose only dot leads it.
pub open spec fn extension_of(s: Seq<char>) -> Option<Seq<char>> {
    match last_dot_index(s) {
        Some(i) => if i >= 1 {
            Some(s.subrange(i + 1, s.len() as int))
        } else {
            None
        },
        None => None,
    }
}

/// Whether `c` is an ASCII upper-case letter.
pub open spec fn is_ascii_upper(c: char) -> bool {
    65 <= c as u32 <= 90
}

/// Character equality without regard to ASCII case.
pub open spec fn char_eq_ci(a: char, b: char) -> bool {
    ||| a == b
    ||| (is_ascii_upper(a) && b as u32 == a as u32 + 32)
    ||| (is_ascii_upper(b) && a as u32 == b as u32 + 32)
}

/// Pointwise character-sequence equality without regard to ASCII case.
pub open spec fn seq_eq_ci(a: Seq<char>, b: Seq<char>) -> bool {
    a.len() == b.len() && (forall|i: int| 0 <= i < a.len() ==> char_eq_ci(a[i], b[i]))
}

/// Whether `ext` names a supported image format.
pub open spec fn is_supported_extension(ext: Seq<char>) -> bool {
    ||| seq_eq_ci(ext, "jpg"@)
    ||| seq_eq_ci(ext, "jpeg"@)
    ||| seq_eq_ci(ext, "png"@)
    ||| seq_eq_ci(ext, "webp"@)
}

/// Whether the file name `name` is an image by its extension.
pub open spec fn is_image_name(name: Seq<char>) -> bool {
    match extension_of(name) {
        Some(ext) => is_supported_extension(ext),
        None => false,
    }
}

/// Compares two characters without regard to ASCII case.
fn chars_eq_ci(a: char, b: char) -> (r: bool)
    ensures
        r == char_eq_ci(a, b),
{
    let x = a as u32;
    let y = b as u32;
    x == y || (65 <= x && x <= 90 && y == x + 32) || (65 <= y && y <= 90 && x == y + 32)
}

/// The position of the last `.` in `name`, if any.
fn find_last_dot(name: &str) -> (r: Option<usize>)
    ensures
        match r {
            Some(i) => last_dot_index(name@) == Some(i as int),
            None => last_dot_index(name@) == None::<int>,
        },
{
    let n = name.unicode_len();
    let mut j: usize = n;
    proof {
        assert(name@.take(n as int) =~= name@);
    }
    while j > 0
        invariant
            j <= n,
            n == name@.len(),
            last_dot_index(name@) == last_dot_index(name@.take(j as int)),
        decreases j,
    {
        let c = name.get_char(j - 1);
        proof {
            assert(name@.take(j as int).last() == name@[j - 1]);
        }
        if c == '.' {
            return Some(j - 1);
        }
        proof {
            assert(name@.take(j as int).drop_last() =~= name@.take(j - 1));
        }
        j -= 1;
    }
    proof {
        assert(name@.take(0) =~= Seq::<char>::empty());
    }
    None
}

/// Compares the tail of `name` starting at `start` with `target`, without
/// regard to ASCII case.
fn tail_matches_ci(name: &str, start: usize, target: &str) -> (r: bool)
    requires
        start <= name@.len(),
    ensures
        r == seq_eq_ci(name@.subrange(start as int, name@.len() as int), target@),
{
    let n = name.unicode_len();
    let m = target.unicode_len();
    let ghost tail = name@.subrange(start as int, name@.len() as int);
    if n - start != m {
        return false;
    }
    let mut i: usize = 0;
    while i < m
        invariant
            i <= m,
            n == name@.len(),
            m == target@.len(),
            start + m == n,
            tail == name@.subrange(start as int, name@.len() as int),
            forall|k: int| 0 <= k < i ==> char_eq_ci(tail[k], target@[k]),
        decreases m - i,
    {
        let a = name.get_char(start + i);
        let b = target.get_char(i);
        proof {
            assert(tail[i as int] == name@[start + i]);
        }
        if !chars_eq_ci(a, b) {
            return false;
        }
        i += 1;
    }
    true
}

/// Whether the file name `name` has a supported image extension (`jpg`,
/// `jpeg`, `png` or `webp`, in any ASCII case).
pub fn is_image_file(name: &str) -> (r: bool)
    ensures
        r == is_image_name(name@),
{
    let n = name.unicode_len();
    match find_last_dot(name) {
        None => false,
        Some(i) => {
            if i == 0 {
                false
            } else {
                proof {
                    lemma_last_dot_in_range(name@);
                    assert(i < n);
                }
                let start = i + 1;
                tail_matches_ci(name, start, "jpg") || tail_matches_ci(name, start, "jpeg")
                    || tail_matches_ci(name, start, "png") || tail_matches_ci(name, start, "webp")
            }
        },
    }
}

/// A last-dot position lies inside the sequence.
proof fn lemma_last_dot_in_range(s: Seq<char>)
    ensures
        match last_dot_index(s) {
            Some(i) => 0 <= i < s.len() && s[i] == '.',
            None => true,
        },
    decreases s.len(),
{
    if s.len() > 0 && s.last() != '.' {
        lemma_last_dot_in_range(s.drop_last());
        if let Some(i) = last_dot_index(s.drop_last()) {
            assert(s.drop_last()[i] == s[i]);
        }
    }
}

} // verus!
