//! Path text joined the way a Unix `PathBuf::join` joins it.

use vstd::prelude::*;
use vstd::string::*;

verus! {

/// The path text obtained by appending `part` to `base`: an absolute `part`
/// replaces `base`; otherwise one `/` separates them unless `base` is empty
/// or already ends with one.
pub open spec fn path_join(base: Seq<char>, part: Seq<char>) -> Seq<char> {
    if part.len() > 0 && part[0] == '/' {
        part
    } else if base.len() == 0 || base.last() == '/' {
        base + part
    } else {
        base + seq!['/'] + part
    }
}

/// Appends `part` to `base` as a path.
pub fn join_path(base: &str, part: &str) -> (joined: String)
    ensures
        joined@ == path_join(base@, part@),
{
    let plen: usize = part.unicode_len();
    if plen > 0 && part.get_char(0) == '/' {
        return String::from_str(part);
    }
    let blen: usize = base.unicode_len();
    if blen == 0 || base.get_char(blen - 1) == '/' {
        String::from_str(base).concat(part)
    } else {
        let sep = "/";
        proof {
            reveal_strlit("/");
        }
        let with_sep = String::from_str(base).concat(sep);
        with_sep.concat(part)
    }
}

/// Law: joining `dir` and then `file` onto `base` names the same path as
/// joining `dir` joined with `file` onto `base`, for every base, directory
/// and file (absolute or relative, empty or not).
pub proof fn lemma_join_assoc(base: Seq<char>, dir: Seq<char>, file: Seq<char>)
    ensures
        path_join(path_join(base, dir), file) == path_join(base, path_join(dir, file)),
{
    let bd = path_join(base, dir);
    let df = path_join(dir, file);
    if file.len() > 0 && file[0] == '/' {
    } else if dir.len() > 0 && dir[0] == '/' {
        assert(df.len() > 0 && df[0] == '/');
    } else if dir.len() == 0 {
        assert(df =~= file);
        if base.len() == 0 || base.last() == '/' {
            assert(bd =~= base);
        } else {
            assert(bd =~= base + seq!['/']);
            assert(bd + file =~= base + seq!['/'] + file);
        }
    } else {
        assert(bd.len() > 0 && bd.last() == dir.last());
        assert(df[0] == dir[0]);
        if base.len() == 0 || base.last() == '/' {
            if dir.last() == '/' {
                assert((base + dir) + file =~= base + (dir + file));
            } else {
                assert((base + dir) + seq!['/'] + file =~= base + (dir + seq!['/'] + file));
            }
        } else {
            if dir.last() == '/' {
                assert((base + seq!['/'] + dir) + file =~= base + seq!['/'] + (dir + file));
            } else {
                assert((base + seq!['/'] + dir) + seq!['/'] + file =~= base + seq!['/'] + (dir
                    + seq!['/'] + file));
            }
        }
    }
}

} // verus!
