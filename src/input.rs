//! Recognising the kind of a mesh file from its name.
use crate::text::same_chars;
use vstd::prelude::*;
use vstd::string::*;

verus! {

/// Mesh file formats the viewer reads.
#[derive(Debug, Clone, Copy, PartialEq, Eq, Structural)]
pub enum FileType {
    Stl,
    Obj,
}

/// What follows the last `.` of `s`, or the whole of `s` where it has none.
pub open spec fn extension(s: Seq<char>) -> Seq<char>
    decreases s.len(),
{
    if s.len() == 0 {
        s
    } else if s.last() == '.' {
        Seq::empty()
    } else {
        extension(s.drop_last()).push(s.last())
    }
}

/// Message given for a file whose extension is not supported.
pub open spec fn unsupported_message(ext: Seq<char>) -> Seq<char> {
    "Error: Unsupported File Type: "@ + ext
}

proof fn lemma_extension_suffix(s: Seq<char>, k: int)
    requires
        -1 <= k < s.len(),
        k >= 0 ==> s[k] == '.',
        forall|m: int| k < m < s.len() ==> s[m] != '.',
    ensures
        extension(s) == s.subrange(k + 1, s.len() as int),
    decreases s.len(),
{
    if s.len() == 0 {
        assert(s.subrange(0, 0) =~= s);
    } else if k == s.len() - 1 {
        assert(s.subrange(k + 1, s.len() as int) =~= Seq::<char>::empty());
    } else {
        let t = s.drop_last();
        assert forall|m: int| k < m < t.len() implies t[m] != '.' by {
            assert(t[m] == s[m]);
        }
        lemma_extension_suffix(t, k);
        assert(t.subrange(k + 1, t.len() as int).push(s.last()) =~= s.subrange(
            k + 1,
            s.len() as int,
        ));
    }
}

/// The file type given by the extension of `path`: `stl` or `obj`. Any other
/// extension is refused with a message that names it.
pub fn get_file_type(path: String) -> (r: Result<FileType, String>)
    ensures
        extension(path@) == "stl"@ ==> r == Ok::<FileType, String>(FileType::Stl),
        extension(path@) == "obj"@ ==> r == Ok::<FileType, String>(FileType::Obj),
        extension(path@) != "stl"@ && extension(path@) != "obj"@ ==> (r matches Err(m) && m@
            == unsupported_message(extension(path@))),
{
    let s = path.as_str();
    let n = s.unicode_len();
    let mut i: usize = n;
    let mut found = false;
    while i > 0 && !found
        invariant
            n == s@.len(),
            s@ == path@,
            i <= n,
            forall|m: int| i <= m < n ==> s@[m] != '.',
            found ==> i > 0 && s@[i - 1] == '.',
        decreases i + if found {
            0int
        } else {
            1int
        },
    {
        if s.get_char(i - 1) == '.' {
            found = true;
        } else {
            i = i - 1;
        }
    }
    proof {
        if found {
            lemma_extension_suffix(s@, i - 1);
        } else {
            lemma_extension_suffix(s@, -1);
            assert(i == 0);
        }
    }
    let ext = s.substring_char(i, n);
    assert(ext@ == extension(path@));
    proof {
        reveal_strlit("stl");
        reveal_strlit("obj");
        assert("stl"@[0] != "obj"@[0]);
    }
    if same_chars(ext, "stl") {
        Ok(FileType::Stl)
    } else if same_chars(ext, "obj") {
        Ok(FileType::Obj)
    } else {
        let mut message = String::from_str("Error: Unsupported File Type: ");
        message.append(ext);
        Err(message)
    }
}

} // verus!
