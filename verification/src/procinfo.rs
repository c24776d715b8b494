//! Process inspection records: a process with its id, parent id and
//! command, an open-file record as plain values, and the all-or-nothing
//! pairing rule for a file-descriptor table — the per-descriptor data is
//! gathered outside and handed in; if any descriptor's record is missing
//! (as when the process exited meanwhile), the whole listing is
//! unavailable.

use vstd::prelude::*;

verus! {

/// One open file of a process, as plain values.
pub struct OpenFile {
    /// The file's name.
    pub name: String,
    /// The access mode the descriptor was opened with.
    pub access_mode: String,
    /// The descriptor's read/write cursor position.
    pub cursor: usize,
}

impl OpenFile {
    /// Builds an open-file record.
    pub fn new(name: String, access_mode: String, cursor: usize) -> (r: OpenFile)
        ensures
            r.name == name,
            r.access_mode == access_mode,
            r.cursor == cursor,
    {
        OpenFile { name, access_mode, cursor }
    }
}

/// Whether every descriptor of the table has its open-file record.
pub open spec fn spec_all_present(entries: Seq<(usize, Option<OpenFile>)>) -> bool
    decreases entries.len(),
{
    entries.len() == 0 || (entries.last().1 is Some && spec_all_present(entries.drop_last()))
}

/// In a fully present table, every position holds a record.
pub proof fn lemma_all_present_at(entries: Seq<(usize, Option<OpenFile>)>, j: int)
    requires
        spec_all_present(entries),
        0 <= j < entries.len(),
    ensures
        entries[j].1 is Some,
    decreases entries.len(),
{
    if j < entries.len() - 1 {
        lemma_all_present_at(entries.drop_last(), j);
    }
}

/// A table whose every position holds a record is fully present.
pub proof fn lemma_all_present_build(entries: Seq<(usize, Option<OpenFile>)>)
    requires
        forall|k: int| 0 <= k < entries.len() ==> (#[trigger] entries[k]).1 is Some,
    ensures
        spec_all_present(entries),
    decreases entries.len(),
{
    if entries.len() > 0 {
        assert forall|k: int|
            0 <= k < entries.drop_last().len() implies (#[trigger] entries.drop_last()[k]).1
            is Some by {
            assert(entries.drop_last()[k] == entries[k]);
        }
        lemma_all_present_build(entries.drop_last());
    }
}

/// Whether `r` is the listing that the descriptor table `entries`
/// yields: present exactly when every record is, pairing each
/// descriptor with its record in order.
pub open spec fn spec_fd_listing(
    entries: Seq<(usize, Option<OpenFile>)>,
    r: Option<Vec<(usize, OpenFile)>>,
) -> bool {
    match r {
        Some(out) => out@.len() == entries.len() && forall|k: int|
            0 <= k < out@.len() ==> (#[trigger] out@[k]).0 == entries[k].0 && entries[k].1
                == Some(out@[k].1),
        None => !spec_all_present(entries),
    }
}

/// One process: its id, its parent's id, and its command.
pub struct Process {
    pub pid: usize,
    pub ppid: usize,
    pub command: String,
}

impl Process {
    /// Builds a process record.
    pub fn new(pid: usize, ppid: usize, command: String) -> (r: Process)
        ensures
            r.pid == pid,
            r.ppid == ppid,
            r.command == command,
    {
        Process { pid, ppid, command }
    }

    /// Pairs each file descriptor with its open-file record, in order:
    /// the listing exists only if every descriptor's record does, as the
    /// information vanishes wholesale once the process has exited.
    pub fn list_open_files(&self, entries: &mut Vec<(usize, Option<OpenFile>)>) -> (r: Option<
        Vec<(usize, OpenFile)>,
    >)
        ensures
            spec_fd_listing(old(entries)@, r),
    {
        let ghost orig = old(entries)@;
        let mut out: Vec<(usize, OpenFile)> = Vec::new();
        proof {
            assert(orig.skip(0) =~= orig);
        }
        while entries.len() > 0
            invariant
                orig == old(entries)@,
                out@.len() + entries@.len() == orig.len(),
                entries@ == orig.skip(out@.len() as int),
                forall|k: int|
                    0 <= k < out@.len() ==> (#[trigger] out@[k]).0 == orig[k].0 && orig[k].1
                        == Some(out@[k].1),
            decreases entries@.len(),
        {
            let ghost j = out@.len() as int;
            proof {
                assert(entries@[0] == orig[j]);
                assert(entries@.skip(1) =~= orig.skip(j + 1));
            }
            let (fd, fo) = entries.remove(0);
            let ghost out_before = out@;
            match fo {
                Some(f) => {
                    out.push((fd, f));
                    proof {
                        assert forall|k: int|
                            0 <= k < out@.len() implies (#[trigger] out@[k]).0 == orig[k].0
                            && orig[k].1 == Some(out@[k].1) by {
                            if k < j {
                                assert(out@[k] == out_before[k]);
                            } else {
                                assert(out@[k] == (fd, f));
                            }
                        }
                    }
                },
                None => {
                    proof {
                        assert(orig[j].1 is None);
                        if spec_all_present(orig) {
                            lemma_all_present_at(orig, j);
                        }
                        assert(spec_fd_listing(orig, None::<Vec<(usize, OpenFile)>>));
                    }
                    return None;
                },
            }
        }
        proof {
            assert forall|k: int| 0 <= k < orig.len() implies (#[trigger] orig[k]).1 is Some by {
                assert(orig[k].1 == Some(out@[k].1));
            }
            lemma_all_present_build(orig);
            assert(spec_fd_listing(orig, Some(out)));
        }
        Some(out)
    }
}

} // verus!
