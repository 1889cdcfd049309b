//! The screenshots instances have taken, listed where they already are:
//! which files count as screenshots, and the order a listing shows them in.
//! The directory reads and the deletion are the caller's.

use vstd::prelude::*;

use crate::launch::{join_str, path_join};
use crate::order::{newest_first, newest_first_order};
use crate::text::{chars_of, eq_ignore_case, eq_ignore_case_exec, last_index, push_str, rfind_char, string_of, sub_chars};

verus! {

/// One screenshot an instance took.
#[derive(Debug, Clone)]
pub struct Screenshot {
    pub instance: String,
    pub instance_name: String,
    /// The file name inside the instance's screenshot folder.
    pub file: String,
    pub path: String,
    /// Unix seconds of the file's last change, 0 when unknown.
    pub taken_unix: i64,
    pub bytes: u64,
}

impl Screenshot {
    /// A copy of this screenshot.
    pub fn duplicate(&self) -> (r: Screenshot)
        ensures
            r == *self,
    {
        Screenshot {
            instance: self.instance.clone(),
            instance_name: self.instance_name.clone(),
            file: self.file.clone(),
            path: self.path.clone(),
            taken_unix: self.taken_unix,
            bytes: self.bytes,
        }
    }
}

/// Where an instance's screenshots are, under its game directory.
pub fn screenshot_dir(data_dir: &str) -> (r: String)
    ensures
        r@ == path_join(data_dir@, "screenshots"@),
{
    join_str(data_dir, "screenshots")
}

/// Whether a file name has the `png` extension, in any case. As for a
/// path's extension, a leading dot starts no extension.
pub open spec fn is_png_name(file_name: Seq<char>) -> bool {
    match last_index(file_name, '.') {
        Some(i) => i > 0 && eq_ignore_case(file_name.skip(i + 1), "png"@),
        None => false,
    }
}

/// Whether a file (already known to be a file) is a screenshot.
pub fn is_png(file_name: &str) -> (r: bool)
    ensures
        r == is_png_name(file_name@),
{
    let cs = chars_of(file_name);
    match rfind_char(&cs, '.') {
        Some(i) => {
            let n = cs.len();
            assert(i < n);
            if i == 0 {
                return false;
            }
            let ext = sub_chars(&cs, i + 1, n);
            assert(ext@ =~= file_name@.skip(i + 1));
            let png = chars_of("png");
            eq_ignore_case_exec(&ext, &png)
        },
        None => false,
    }
}

/// The capture times of some screenshots, in order.
pub open spec fn taken_of(shots: Seq<Screenshot>) -> Seq<i64> {
    shots.map_values(|s: Screenshot| s.taken_unix)
}

/// The file names of some screenshots, in order.
pub open spec fn files_of(shots: Seq<Screenshot>) -> Seq<Seq<char>> {
    shots.map_values(|s: Screenshot| s.file@)
}

/// Screenshots as a listing shows them: newest first, by file name among
/// those taken the same second, in their given order otherwise.
pub fn newest_first_listing(shots: &Vec<Screenshot>) -> (r: Vec<Screenshot>)
    ensures
        exists|order: Seq<usize>|
            #[trigger] newest_first_order(taken_of(shots@), files_of(shots@), order) && r@ == order.map_values(
                |k: usize| shots@[k as int],
            ),
{
    let mut taken: Vec<i64> = Vec::new();
    let mut files: Vec<String> = Vec::new();
    let mut i: usize = 0;
    while i < shots.len()
        invariant
            i <= shots@.len(),
            taken@ == taken_of(shots@.take(i as int)),
            files.deep_view() == files_of(shots@.take(i as int)),
        decreases shots.len() - i,
    {
        let ghost fb = files.deep_view();
        taken.push(shots[i].taken_unix);
        files.push(shots[i].file.clone());
        assert(taken@ =~= taken_of(shots@.take(i + 1)));
        assert(files.deep_view() =~= fb.push(shots@[i as int].file@));
        assert(files.deep_view() =~= files_of(shots@.take(i + 1)));
        i += 1;
    }
    assert(shots@.take(shots@.len() as int) =~= shots@);
    let order = newest_first(&taken, &files);
    let mut out: Vec<Screenshot> = Vec::new();
    let mut k: usize = 0;
    while k < order.len()
        invariant
            newest_first_order(taken@, files.deep_view(), order@),
            taken@ == taken_of(shots@),
            files.deep_view() == files_of(shots@),
            k <= order@.len(),
            out@ == order@.take(k as int).map_values(|x: usize| shots@[x as int]),
        decreases order.len() - k,
    {
        let x = order[k];
        assert(x < taken@.len());
        out.push(shots[x].duplicate());
        assert(out@ =~= order@.take(k + 1).map_values(|x: usize| shots@[x as int]));
        k += 1;
    }
    assert(order@.take(order@.len() as int) =~= order@);
    out
}

/// What a delete of a file that is not there says.
pub fn missing_screenshot(file: &str, instance_name: &str) -> (r: String)
    ensures
        r@ == "no screenshot '"@ + file@ + "' in '"@ + instance_name@ + "'"@,
{
    let mut out: Vec<char> = Vec::new();
    push_str(&mut out, "no screenshot '");
    push_str(&mut out, file);
    push_str(&mut out, "' in '");
    push_str(&mut out, instance_name);
    push_str(&mut out, "'");
    string_of(&out)
}

} // verus!
