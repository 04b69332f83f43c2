//! Requests a client sends to a host.
use vstd::prelude::*;
use crate::text::str_eq;

verus! {

/// Requests.
pub enum KarlRequest {
    Ping(PingRequest),
    Compute(ComputeRequest),
}

/// Ping request.
#[derive(Debug)]
pub struct PingRequest {}

/// Compute request.
pub struct ComputeRequest {
    /// Formatted zipped directory.
    ///
    /// config
    /// package/
    /// -- binary.wasm
    /// -- files
    pub zip: Vec<u8>,
    /// Whether to include stdout in the results.
    pub stdout: bool,
    /// Whether to include stderr in the results.
    pub stderr: bool,
    /// Files to include in the results, if they exist. Each name is held
    /// once, in the order it was first added.
    pub files: Vec<String>,
}

/// What a compute request asks for.
pub struct ComputeRequestView {
    pub zip: Seq<u8>,
    pub stdout: bool,
    pub stderr: bool,
    pub files: Set<Seq<char>>,
}

/// The text of each name in a list of names.
pub open spec fn names(files: Seq<String>) -> Seq<Seq<char>> {
    files.map_values(|s: String| s@)
}

impl View for ComputeRequest {
    type V = ComputeRequestView;

    open spec fn view(&self) -> ComputeRequestView {
        ComputeRequestView {
            zip: self.zip@,
            stdout: self.stdout,
            stderr: self.stderr,
            files: names(self.files@).to_set(),
        }
    }
}

/// The files a request asks for do not depend on the order in which they
/// were added, nor on how often each was added.
pub proof fn lemma_files_order_irrelevant(files: Set<Seq<char>>, a: Seq<char>, b: Seq<char>)
    ensures
        files.insert(a).insert(b) == files.insert(b).insert(a),
        files.insert(a).insert(a) == files.insert(a),
{
    assert(files.insert(a).insert(b) =~= files.insert(b).insert(a));
    assert(files.insert(a).insert(a) =~= files.insert(a));
}

impl PingRequest {
    /// Create a new ping request.
    pub fn new() -> (r: Self)
        ensures
            r == (PingRequest {}),
    {
        PingRequest {  }
    }
}

impl ComputeRequest {
    /// Whether no file name is listed twice.
    pub open spec fn files_distinct(&self) -> bool {
        names(self.files@).no_duplicates()
    }

    /// Create a new compute request based on a a serialized version of a
    /// formatted zipped directory, asking for no output.
    ///
    /// config
    /// package/
    /// -- binary.wasm
    /// -- files
    pub fn new(zip: Vec<u8>) -> (r: Self)
        ensures
            r@ == (ComputeRequestView {
                zip: zip@,
                stdout: false,
                stderr: false,
                files: Set::empty(),
            }),
            r.files@.len() == 0,
    {
        let r = ComputeRequest { zip, stdout: false, stderr: false, files: Vec::new() };
        assert(names(r.files@).to_set() =~= Set::empty());
        r
    }

    /// Include stdout in the results.
    pub fn stdout(self) -> (r: Self)
        ensures
            r@ == (ComputeRequestView { stdout: true, ..self@ }),
            r.files@ == self.files@,
    {
        let mut r = self;
        r.stdout = true;
        r
    }

    /// Include stderr in the results.
    pub fn stderr(self) -> (r: Self)
        ensures
            r@ == (ComputeRequestView { stderr: true, ..self@ }),
            r.files@ == self.files@,
    {
        let mut r = self;
        r.stderr = true;
        r
    }

    /// Include a specific output file in the results, if it exists.
    /// A name already listed is not listed again.
    pub fn file(self, filename: &str) -> (r: Self)
        ensures
            r@ == (ComputeRequestView { files: self@.files.insert(filename@), ..self@ }),
            self.files_distinct() ==> r.files_distinct(),
            names(r.files@) == if names(self.files@).contains(filename@) {
                names(self.files@)
            } else {
                names(self.files@).push(filename@)
            },
    {
        let mut r = self;
        let ghost old_names = names(r.files@);
        let mut i: usize = 0;
        while i < r.files.len()
            invariant
                r == self,
                i <= r.files.len(),
                old_names == names(r.files@),
                forall|j: int| 0 <= j < i ==> old_names[j] != filename@,
            decreases r.files.len() - i,
        {
            if str_eq(r.files[i].as_str(), filename) {
                assert(old_names[i as int] == filename@);
                assert(names(r.files@).to_set().insert(filename@) =~= names(r.files@).to_set());
                return r;
            }
            i = i + 1;
        }
        assert(!old_names.contains(filename@));
        r.files.push(filename.to_owned());
        assert(names(r.files@) =~= old_names.push(filename@));
        assert(names(r.files@).to_set() =~= old_names.to_set().insert(filename@)) by {
            assert forall|x: Seq<char>| #[trigger] names(r.files@).to_set().contains(x) <==> old_names.to_set().insert(filename@).contains(x) by {
                if x == filename@ {
                    assert(names(r.files@)[old_names.len() as int] == x);
                } else if old_names.contains(x) {
                    let k = choose|k: int| 0 <= k < old_names.len() && old_names[k] == x;
                    assert(names(r.files@)[k] == x);
                }
            }
        }
        r
    }
}

} // verus!
