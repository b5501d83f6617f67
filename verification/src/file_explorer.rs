//! The file-picker state that the surrounding application browses with.
//! Directory listing and the widget rendering live outside the library;
//! here stands the state itself and the file-name logic on it.

use vstd::prelude::*;

verus! {

/// Browsing state: the directory being shown, the file picked in it, and
/// the listed entries. Paths are plain strings with `/` separating their
/// components; the surrounding application fills the lists.
pub struct FileExplorer {
    pub current_dir: String,
    pub selected_file: String,
    pub dir_vec: Vec<String>,
    pub file_vec: Vec<String>,
    pub dirnames: Vec<String>,
    pub filenames: Vec<String>,
}

/// Index at which the final component starts: just past the last `/`, or
/// 0 when the path holds none.
pub open spec fn name_start(p: Seq<char>) -> int
    decreases p.len(),
{
    if p.len() == 0 {
        0
    } else if p.last() == '/' {
        p.len() as int
    } else {
        name_start(p.drop_last())
    }
}

/// Index up to which the path survives tail normalisation: trailing `/`
/// separators and trailing `.` components (a lone `.` after a separator
/// or at the start) are dropped, repeatedly.
pub open spec fn strip_end(p: Seq<char>) -> int
    decreases p.len(),
{
    if p.len() == 0 {
        0
    } else if p.last() == '/' {
        strip_end(p.drop_last())
    } else if p.last() == '.' && (p.len() == 1 || p[p.len() - 2] == '/') {
        strip_end(p.drop_last())
    } else {
        p.len() as int
    }
}

/// The file name of a path, as standard path handling reads it: trailing
/// separators and `.` components are ignored, and what remains after the
/// last `/` is the name — except that a final `..` names no file, so it
/// yields the empty name, as does a path with nothing left.
pub open spec fn file_name_of(p: Seq<char>) -> Seq<char> {
    let q = p.take(strip_end(p));
    let c = q.subrange(name_start(q), q.len() as int);
    if c.len() == 2 && c[0] == '.' && c[1] == '.' {
        Seq::empty()
    } else {
        c
    }
}

/// A position with no `/` at or after it, and a `/` (or nothing) just
/// before it, is where the final component starts.
proof fn lemma_name_start_at(p: Seq<char>, i: int)
    requires
        0 <= i <= p.len(),
        forall|j: int| i <= j < p.len() ==> p[j] != '/',
        i == 0 || p[i - 1] == '/',
    ensures
        name_start(p) == i,
    decreases p.len(),
{
    if i == p.len() {
        if p.len() > 0 {
            assert(p.last() == p[p.len() - 1]);
        }
    } else {
        assert(p.last() != '/');
        lemma_name_start_at(p.drop_last(), i);
    }
}

impl FileExplorer {
    /// The file name of the selected path: its final component after
    /// trailing `/` separators and `.` components are dropped, empty when
    /// nothing remains or the final component is `..`.
    pub fn get_filename(&self) -> (r: String)
        ensures
            r@ == file_name_of(self.selected_file@),
    {
        let s: &str = self.selected_file.as_str();
        let n = s.unicode_len();
        // Drop trailing separators and `.` components.
        proof {
            assert(s@.take(n as int) =~= s@);
        }
        let mut end: usize = n;
        let mut done: bool = false;
        while !done
            invariant
                end <= n,
                n == s@.len(),
                strip_end(s@.take(end as int)) == strip_end(s@),
                done ==> end as int == strip_end(s@),
            decreases end, (if done { 0int } else { 1int }),
        {
            proof {
                if end > 0 {
                    assert(s@.take(end as int).drop_last() =~= s@.take(end as int - 1));
                    assert(s@.take(end as int).last() == s@[end as int - 1]);
                }
            }
            if end == 0 {
                done = true;
            } else {
                let c = s.get_char(end - 1);
                if c == '/' {
                    end -= 1;
                } else if c == '.' && (end == 1 || s.get_char(end - 2) == '/') {
                    end -= 1;
                } else {
                    done = true;
                }
            }
        }
        // Find where the final component starts.
        let mut start: usize = 0;
        let mut j: usize = 0;
        while j < end
            invariant
                j <= end <= n,
                n == s@.len(),
                start <= j,
                forall|k: int| start <= k < j ==> s@[k] != '/',
                start == 0 || s@[start as int - 1] == '/',
            decreases end - j,
        {
            if s.get_char(j) == '/' {
                start = j + 1;
            }
            j += 1;
        }
        proof {
            lemma_name_start_at(s@.take(end as int), start as int);
            assert(s@.take(end as int).subrange(start as int, end as int) =~= s@.subrange(
                start as int,
                end as int,
            ));
        }
        // A final `..` names no file.
        if end - start == 2 && s.get_char(start) == '.' && s.get_char(start + 1) == '.' {
            return String::new();
        }
        let sub = s.substring_char(start, end);
        sub.to_owned()
    }
}

} // verus!
