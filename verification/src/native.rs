//! Living beside the vendor's own speech process: finding it, and keeping its
//! socket and its full-duplex mode out of the way.
use vstd::prelude::*;
use crate::paths;
use crate::text;

verus! {

/// The path at which the front end looks for its speech socket.
pub const DEFAULT_SOCKET_PATH: &'static str = "/tmp/mico_aivs_lab/usock/speech.usock";

/// The file name under which the vendor's socket is kept while it is set aside.
pub const NATIVE_SOCKET_FILE_NAME: &'static str = "speech.native.usock";

/// The file whose presence turns the full-duplex mode on.
pub const NATIVE_FULL_DUPLEX_PATH: &'static str = "/data/mipns/dialog_continuous";

/// Where that file is moved to turn the mode off.
pub const DISABLED_FULL_DUPLEX_PATH: &'static str =
    "/data/mipns/dialog_continuous.xiaoai-agent-disabled";

/// The name of the vendor's speech process.
pub const NATIVE_PROCESS: &'static str = "mico_aivs_lab";

/// A path without slashes at its end, and without single dots as its last
/// components.
pub open spec fn without_tail(path: Seq<char>) -> Seq<char>
    decreases path.len(),
{
    let n = path.len();
    if n > 0 && path[n - 1] == '/' {
        without_tail(path.drop_last())
    } else if n > 1 && path[n - 1] == '.' && path[n - 2] == '/' {
        without_tail(path.take(n - 2))
    } else {
        path
    }
}

/// What stands behind the last slash.
pub open spec fn behind_slash(path: Seq<char>) -> Seq<char>
    decreases path.len(),
{
    if path.len() == 0 || path.last() == '/' {
        Seq::empty()
    } else {
        behind_slash(path.drop_last()).push(path.last())
    }
}

/// The last component of a path, where it is a name.
pub open spec fn path_file_name(path: Seq<char>) -> Option<Seq<char>> {
    let name = behind_slash(without_tail(path));
    if name == ""@ || name == "."@ || name == ".."@ {
        None
    } else {
        Some(name)
    }
}

proof fn lemma_behind_slash(path: Seq<char>, k: int)
    requires
        0 <= k <= path.len(),
        k == 0 || path[k - 1] == '/',
        forall|j: int| k <= j < path.len() ==> path[j] != '/',
    ensures
        behind_slash(path) == path.skip(k),
    decreases path.len(),
{
    if k == path.len() {
        assert(path.skip(k) =~= Seq::empty());
    } else {
        lemma_behind_slash(path.drop_last(), k);
        assert(path.drop_last().skip(k).push(path.last()) =~= path.skip(k));
    }
}

/// The last component of a path, where it is a name.
pub fn file_name(path: &str) -> (r: Option<String>)
    ensures
        r is Some <==> path_file_name(path@) is Some,
        r matches Some(name) ==> path_file_name(path@) == Some(name@),
{
    let chars: Vec<char> = text::chars_of(path);
    let mut n: usize = chars.len();
    assert(chars@.take(n as int) =~= chars@);
    while n > 0 && (chars[n - 1] == '/' || (n > 1 && chars[n - 1] == '.' && chars[n - 2] == '/'))
        invariant
            n <= chars@.len(),
            without_tail(chars@) == without_tail(chars@.take(n as int)),
        decreases n,
    {
        let ghost left = chars@.take(n as int);
        if chars[n - 1] == '/' {
            assert(left.drop_last() =~= chars@.take(n - 1));
            n = n - 1;
        } else {
            assert(left.take(n - 2) =~= chars@.take(n - 2));
            n = n - 2;
        }
    }
    let ghost base = chars@.take(n as int);
    assert(without_tail(base) == base);
    let mut k: usize = n;
    while k > 0 && chars[k - 1] != '/'
        invariant
            k <= n <= chars@.len(),
            forall|j: int| k <= j < n ==> chars@[j] != '/',
        decreases k,
    {
        k = k - 1;
    }
    proof {
        lemma_behind_slash(base, k as int);
        assert(chars@.subrange(k as int, n as int) =~= base.skip(k as int));
    }
    let name: String = text::string_between(chars.as_slice(), k, n);
    if text::same_text(name.as_str(), "") || text::same_text(name.as_str(), ".")
        || text::same_text(name.as_str(), "..") {
        None
    } else {
        Some(name)
    }
}

/// The text of some bytes, each malformed part replaced.
pub uninterp spec fn lossy_text(bytes: Seq<u8>) -> Seq<char>;

/// `String::from_utf8_lossy`: a function of the bytes.
#[verifier::external_body]
pub(crate) fn text_lossy(bytes: &[u8]) -> (r: String)
    ensures
        r@ == lossy_text(bytes@),
{
    String::from_utf8_lossy(bytes).into_owned()
}

/// What is known of an entry of the process directory.
#[derive(Debug)]
pub struct ProcessEntry {
    /// The entry's name.
    pub name: String,
    /// The command line, arguments separated by zero bytes, where it could be
    /// read.
    pub command_line: Option<Vec<u8>>,
}

/// The bytes before the first zero byte.
pub open spec fn before_zero(bytes: Seq<u8>) -> Seq<u8>
    decreases bytes.len(),
{
    if bytes.len() == 0 || bytes[0] == 0 {
        Seq::empty()
    } else {
        seq![bytes[0]] + before_zero(bytes.skip(1))
    }
}

/// The number of the process that an entry stands for, where its executable has
/// the file name.
pub open spec fn process_named(entry: ProcessEntry, name: Seq<char>) -> Option<u64> {
    match text::unsigned_value(entry.name@) {
        Some(pid) if pid <= u32::MAX => match entry.command_line {
            Some(line) if path_file_name(lossy_text(before_zero(line@))) == Some(name) => Some(
                pid as u64,
            ),
            _ => None,
        },
        _ => None,
    }
}

/// The numbers of the processes whose executable has the file name, in the order
/// of the entries.
pub open spec fn processes_named(entries: Seq<ProcessEntry>, name: Seq<char>) -> Seq<u64>
    decreases entries.len(),
{
    if entries.len() == 0 {
        Seq::empty()
    } else {
        let before = processes_named(entries.drop_last(), name);
        match process_named(entries.last(), name) {
            Some(pid) => before.push(pid),
            None => before,
        }
    }
}

fn first_argument(line: &Vec<u8>) -> (r: Vec<u8>)
    ensures
        r@ == before_zero(line@),
{
    let mut out: Vec<u8> = Vec::new();
    let mut i: usize = 0;
    assert(line@.skip(0) =~= line@);
    assert(before_zero(line@) =~= out@ + before_zero(line@.skip(0)));
    while i < line.len() && line[i] != 0
        invariant
            i <= line@.len(),
            before_zero(line@) == out@ + before_zero(line@.skip(i as int)),
        decreases line@.len() - i,
    {
        let ghost before = out@;
        let ghost rest = line@.skip(i as int);
        out.push(line[i]);
        assert(rest.skip(1) =~= line@.skip(i + 1));
        assert(before + (seq![rest[0]] + before_zero(rest.skip(1))) =~= out@ + before_zero(
            line@.skip(i + 1),
        ));
        i = i + 1;
    }
    assert(out@ + Seq::<u8>::empty() =~= out@);
    out
}

/// The numbers of the processes whose executable has the file name, in the order
/// of the entries.
pub fn pids_named(entries: &Vec<ProcessEntry>, name: &str) -> (r: Vec<u64>)
    ensures
        r@ == processes_named(entries@, name@),
{
    let mut out: Vec<u64> = Vec::new();
    let mut i: usize = 0;
    assert(entries@.take(0) =~= Seq::empty());
    while i < entries.len()
        invariant
            i <= entries@.len(),
            out@ == processes_named(entries@.take(i as int), name@),
        decreases entries@.len() - i,
    {
        assert(entries@.take(i + 1).drop_last() =~= entries@.take(i as int));
        let entry: &ProcessEntry = &entries[i];
        if let Some(pid) = text::parse_u32(entry.name.as_str()) {
            if let Some(line) = &entry.command_line {
                let executable: Vec<u8> = first_argument(line);
                let path: String = text_lossy(executable.as_slice());
                if let Some(found) = file_name(path.as_str()) {
                    if text::same_text(found.as_str(), name) {
                        out.push(pid as u64);
                    }
                }
            }
        }
        i = i + 1;
    }
    assert(entries@.take(i as int) =~= entries@);
    out
}

/// Numbers in decimal with commas between them.
pub open spec fn comma_list(items: Seq<u64>) -> Seq<char>
    decreases items.len(),
{
    if items.len() == 0 {
        Seq::empty()
    } else if items.len() == 1 {
        text::decimal(items[0] as nat)
    } else {
        comma_list(items.drop_last()) + ","@ + text::decimal(items.last() as nat)
    }
}

/// Writes numbers in decimal with commas between them.
pub fn join_pids(items: &Vec<u64>) -> (r: String)
    ensures
        r@ == comma_list(items@),
{
    let mut out = String::new();
    let mut i: usize = 0;
    assert(items@.take(0) =~= Seq::empty());
    while i < items.len()
        invariant
            i <= items@.len(),
            out@ == comma_list(items@.take(i as int)),
        decreases items@.len() - i,
    {
        let ghost seen = items@.take(i + 1);
        assert(seen.drop_last() =~= items@.take(i as int));
        if i > 0 {
            out.append(",");
        }
        out.append(text::decimal_text(items[i]).as_str());
        proof {
            if i == 0 {
                assert(out@ =~= text::decimal(items@[0] as nat));
            }
        }
        i = i + 1;
    }
    assert(items@.take(i as int) =~= items@);
    out
}

// ---------------------------------------------------------- full-duplex mode

/// How the full-duplex mode is turned off.
#[derive(Debug, Clone, Copy, PartialEq, Eq, Structural)]
pub enum FullDuplexPlan {
    /// It is not on, or not this service's to turn off.
    Leave,
    /// Remove the file: it was set aside once already.
    Remove,
    /// Set the file aside.
    SetAside,
}

/// Decides how to turn the full-duplex mode off. Only the service on the default
/// socket of a system with a process directory touches it.
pub fn full_duplex_plan(
    socket_path: &str,
    proc_is_dir: bool,
    active_exists: bool,
    disabled_exists: bool,
) -> (r: FullDuplexPlan)
    ensures
        r == if !paths::same_path(socket_path@, DEFAULT_SOCKET_PATH@) || !proc_is_dir || !active_exists {
            FullDuplexPlan::Leave
        } else if disabled_exists {
            FullDuplexPlan::Remove
        } else {
            FullDuplexPlan::SetAside
        },
{
    if !paths::are_same(socket_path, DEFAULT_SOCKET_PATH) || !proc_is_dir || !active_exists {
        FullDuplexPlan::Leave
    } else if disabled_exists {
        FullDuplexPlan::Remove
    } else {
        FullDuplexPlan::SetAside
    }
}

// --------------------------------------------------------- the native socket

/// Whether the service has to look for the vendor's process at all.
pub fn must_isolate(socket_path: &str, proc_is_dir: bool) -> (r: bool)
    ensures
        r == (paths::same_path(socket_path@, DEFAULT_SOCKET_PATH@) && proc_is_dir),
{
    paths::are_same(socket_path, DEFAULT_SOCKET_PATH) && proc_is_dir
}

/// How the vendor's socket is set aside.
#[derive(Debug)]
pub enum IsolationPlan {
    /// Nothing is to be done.
    Leave,
    /// The vendor's socket was set aside before; the one in place is stale.
    RemoveStale,
    /// Rename the vendor's socket.
    SetAside,
    /// The vendor's process runs and has no socket yet: an error.
    NotReady(String),
}

/// Decides how to set the vendor's socket aside.
pub fn isolation_plan(
    entries: &Vec<ProcessEntry>,
    native_exists: bool,
    socket_exists: bool,
) -> (r: IsolationPlan)
    ensures
        ({
            let pids = processes_named(entries@, NATIVE_PROCESS@);
            if pids.len() == 0 {
                r is Leave
            } else if native_exists {
                if socket_exists {
                    r is RemoveStale
                } else {
                    r is Leave
                }
            } else if socket_exists {
                r is SetAside
            } else {
                r matches IsolationPlan::NotReady(message) && message@
                    == "mico_aivs_lab is running (PID "@ + comma_list(pids)
                    + ") but its speech socket is not ready"@
            }
        }),
{
    let pids: Vec<u64> = pids_named(entries, NATIVE_PROCESS);
    if pids.len() == 0 {
        IsolationPlan::Leave
    } else if native_exists {
        if socket_exists {
            IsolationPlan::RemoveStale
        } else {
            IsolationPlan::Leave
        }
    } else if socket_exists {
        IsolationPlan::SetAside
    } else {
        let mut out: String = "mico_aivs_lab is running (PID ".to_owned();
        out.append(join_pids(&pids).as_str());
        out.append(") but its speech socket is not ready");
        IsolationPlan::NotReady(out)
    }
}

// ----------------------------------------------------------------------- laws

/// The file name of a path is what stands behind its last slash; slashes and single
/// dots at its end do not matter. The name of the directory above is none.
pub proof fn law_file_names(dir: Seq<char>, name: Seq<char>)
    requires
        name.len() > 0,
        forall|i: int| 0 <= i < name.len() ==> (#[trigger] name[i]) != '/',
    ensures
        name != "."@ && name != ".."@ ==> ({
            let path = dir.push('/') + name;
            &&& path_file_name(path) == Some(name)
            &&& path_file_name(path.push('/')) == Some(name)
            &&& path_file_name(path.push('/').push('.')) == Some(name)
            &&& path_file_name(name) == Some(name)
        }),
        name == ".."@ ==> path_file_name(dir.push('/') + name) is None,
{
    reveal_strlit(".");
    reveal_strlit("..");
    reveal_strlit("");
    assert("."@ =~= seq!['.']);
    assert(".."@ =~= seq!['.', '.']);
    let path = dir.push('/') + name;
    let n = path.len() as int;
    let k = dir.len() + 1;
    assert(path.last() == name[name.len() - 1]);
    assert forall|j: int| k <= j < n implies path[j] != '/' by {
        assert(path[j] == name[j - k]);
    }
    assert(path.skip(k as int) =~= name);
    if name != "."@ {
        if path[n - 1] == '.' && path[n - 2] == '/' {
            assert(n - 2 < k);
            assert(name.len() == 1);
            assert(name =~= "."@);
        }
        assert(without_tail(path) == path);
        lemma_behind_slash(path, k as int);
        assert(path.push('/').drop_last() =~= path);
        assert(path.push('/').last() == '/');
        assert(without_tail(path.push('/')) == path);
        let dotted = path.push('/').push('.');
        assert(dotted.take(dotted.len() - 2) =~= path);
        assert(dotted[dotted.len() - 1] == '.' && dotted[dotted.len() - 2] == '/');
        assert(without_tail(dotted) == path);
        assert(name.skip(0) =~= name);
        if name.len() > 1 && name[name.len() - 1] == '.' {
            assert(name[name.len() - 2] != '/');
        }
        assert(without_tail(name) == name);
        lemma_behind_slash(name, 0);
    }
}

/// A path of nothing but slashes has no file name, nor has an empty one.
pub proof fn law_root_has_no_file_name(path: Seq<char>)
    requires
        forall|i: int| 0 <= i < path.len() ==> (#[trigger] path[i]) == '/',
    ensures
        path_file_name(path) is None,
    decreases path.len(),
{
    reveal_strlit("");
    if path.len() == 0 {
        assert(without_tail(path) == path);
        assert(behind_slash(path) =~= ""@);
    } else {
        law_root_has_no_file_name(path.drop_last());
        assert(without_tail(path) == without_tail(path.drop_last()));
    }
}

/// The executable of a process is its first argument: what stands before the first
/// zero byte.
pub proof fn law_first_arguments(first: Seq<u8>, rest: Seq<u8>)
    requires
        forall|i: int| 0 <= i < first.len() ==> (#[trigger] first[i]) != 0,
    ensures
        before_zero(first.push(0) + rest) == first,
        before_zero(first) == first,
    decreases first.len(),
{
    let all = first.push(0) + rest;
    if first.len() == 0 {
        assert(all[0] == 0);
        assert(first =~= Seq::empty());
    } else {
        let more = first.skip(1);
        assert forall|i: int| 0 <= i < more.len() implies (#[trigger] more[i]) != 0 by {
            assert(more[i] == first[i + 1]);
        }
        law_first_arguments(more, rest);
        assert(all.skip(1) =~= more.push(0) + rest);
        assert(all[0] == first[0]);
        assert(seq![first[0]] + more =~= first);
    }
}

/// A process is found exactly where its entry is a number of 32 bits and its
/// executable has the name, and every one is, in the order of the entries.
pub proof fn law_processes_are_found(
    entries: Seq<ProcessEntry>,
    entry: ProcessEntry,
    name: Seq<char>,
    pid: u64,
)
    ensures
        processes_named(entries.push(entry), name) == match process_named(entry, name) {
            Some(pid) => processes_named(entries, name).push(pid),
            None => processes_named(entries, name),
        },
        process_named(entry, name) == Some(pid) <==> text::unsigned_value(entry.name@) == Some(
            pid as int,
        ) && pid <= 0xffff_ffff && (entry.command_line matches Some(line) && path_file_name(
            lossy_text(before_zero(line@)),
        ) == Some(name)),
        processes_named(Seq::empty(), name).len() == 0,
{
    assert(entries.push(entry).drop_last() =~= entries);
}

/// Numbers in a list are written in decimal, in order, with a comma between two.
pub proof fn law_lists_have_commas(items: Seq<u64>, last: u64)
    ensures
        comma_list(seq![last]) == text::decimal(last as nat),
        items.len() > 0 ==> comma_list(items.push(last)) == comma_list(items) + ","@ + text::decimal(
            last as nat,
        ),
{
    assert(items.push(last).drop_last() =~= items);
}

} // verus!
