//! Preparing a compute package: resolving its imports, mapping the import
//! directories into the package root, and finding the binary to run.
use vstd::prelude::*;
use vstd::string::*;
use crate::error::Error;
use crate::path::{spec_is_absolute, spec_join, spec_file_name, join, file_name};

verus! {

/// What `{:?}` prints for `std::path::Path::new(s)` (the quoted, escaped text).
pub uninterp spec fn path_debug_text(s: Seq<char>) -> Seq<char>;

/// The text of `{:?}` applied to the path `s`.
///
/// Trusted: calls `format!("{:?}", std::path::Path::new(s))`; the result is
/// claimed to be a function of `s` alone, and nothing more is said of it.
#[verifier::external_body]
fn path_debug(s: &str) -> (res: String)
    ensures
        res@ == path_debug_text(s@),
{
    format!("{:?}", std::path::Path::new(s))
}

/// A mapped directory: the import directory `p` mounted at the package root.
pub open spec fn mapped_dir(p: Seq<char>) -> Seq<char> {
    seq!['.', ':'] + p
}

/// Get mapped directories.
///
/// Maps imports to the package root: each import path `p` becomes `.:p`.
pub fn get_mapped_dirs(import_paths: Vec<String>) -> (res: Vec<String>)
    ensures
        res.len() == import_paths.len(),
        forall|i: int| 0 <= i < res.len() ==> #[trigger] res[i]@ == mapped_dir(import_paths[i]@),
{
    let mut res: Vec<String> = Vec::new();
    let mut i: usize = 0;
    while i < import_paths.len()
        invariant
            i <= import_paths.len(),
            res.len() == i,
            forall|j: int| 0 <= j < i ==> #[trigger] res[j]@ == mapped_dir(import_paths[j]@),
        decreases import_paths.len() - i,
    {
        let prefix = ".:";
        proof {
            reveal_strlit(".:");
        }
        let mut dir = prefix.to_owned();
        dir.append(import_paths[i].as_str());
        assert(dir@ =~= mapped_dir(import_paths[i as int]@));
        res.push(dir);
        i = i + 1;
    }
    res
}

/// Whether `resolve` can succeed on `import`.
pub open spec fn resolves_ok<I, F: Fn(&I, &str) -> Result<String, Error>>(
    resolve: F,
    import: &I,
    karl_path: &str,
) -> bool {
    exists|p: String| resolve.ensures((import, karl_path), Ok::<String, Error>(p))
}

/// Resolve imports: the path of each import, in order, as `resolve` gives
/// it for the import and the karl path. Stops at the first import that
/// `resolve` fails on and returns its error.
pub fn resolve_import_paths<I, F: Fn(&I, &str) -> Result<String, Error>>(
    karl_path: &str,
    imports: &Vec<I>,
    resolve: F,
) -> (res: Result<Vec<String>, Error>)
    requires
        forall|i: int| 0 <= i < imports.len() ==> resolve.requires((&imports[i], karl_path)),
    ensures
        res matches Ok(paths) ==> {
            &&& paths.len() == imports.len()
            &&& forall|i: int|
                0 <= i < paths.len() ==> resolve.ensures(
                    (&imports[i], karl_path),
                    Ok::<String, Error>(#[trigger] paths[i]),
                )
        },
        res matches Err(e) ==> exists|k: int|
            0 <= k < imports.len() && #[trigger] resolve.ensures(
                (&imports[k], karl_path),
                Err::<String, Error>(e),
            ) && forall|j: int| 0 <= j < k ==> #[trigger] resolves_ok(resolve, &imports[j], karl_path),
{
    let mut import_paths: Vec<String> = Vec::new();
    let mut i: usize = 0;
    while i < imports.len()
        invariant
            i <= imports.len(),
            import_paths.len() == i,
            forall|j: int| 0 <= j < imports.len() ==> resolve.requires((&imports[j], karl_path)),
            forall|j: int|
                0 <= j < i ==> resolve.ensures(
                    (&imports[j], karl_path),
                    Ok::<String, Error>(#[trigger] import_paths[j]),
                ),
        decreases imports.len() - i,
    {
        let r = resolve(&imports[i], karl_path);
        match r {
            Ok(path) => {
                import_paths.push(path);
            },
            Err(e) => {
                assert forall|j: int| 0 <= j < i implies #[trigger] resolves_ok(
                    resolve,
                    &imports[j],
                    karl_path,
                ) by {
                    assert(resolve.ensures((&imports[j], karl_path), Ok::<String, Error>(import_paths[j])));
                }
                return Err(e);
            },
        }
        i = i + 1;
    }
    Ok(import_paths)
}

/// Where an import may hold the binary named `name`: its `bin` directory.
pub open spec fn bin_dir_candidate(import: Seq<char>, name: Seq<char>) -> Seq<char> {
    spec_join(spec_join(import, seq!['b', 'i', 'n']), name)
}

/// The places looked at in each import, in order: for import `i`, first
/// `<import>/bin/<name>`, then `<import>/<binary path>`.
pub open spec fn import_candidates(
    imports: Seq<Seq<char>>,
    binary: Seq<char>,
    name: Seq<char>,
) -> Seq<Seq<char>> {
    Seq::new(
        2 * imports.len(),
        |k: int|
            if k % 2 == 0 {
                bin_dir_candidate(imports[k / 2], name)
            } else {
                spec_join(imports[k / 2], binary)
            },
    )
}

/// Every path at which the binary is looked for, in order: relative to the
/// package root, then, where the binary path has a file name, in each import.
pub open spec fn binary_candidates(
    binary: Seq<char>,
    pkg_root: Seq<char>,
    imports: Seq<Seq<char>>,
) -> Seq<Seq<char>> {
    match spec_file_name(binary) {
        Some(name) => seq![spec_join(pkg_root, binary)] + import_candidates(imports, binary, name),
        None => seq![spec_join(pkg_root, binary)],
    }
}

/// The order in which the binary is looked for. First relative to the
/// package root; then, where the binary path has a file name, for each
/// import from the first to the last: `<import>/bin/<file name>`, then
/// `<import>/<binary path>`. Without a file name, only the package root.
pub proof fn lemma_candidate_order(binary: Seq<char>, pkg_root: Seq<char>, imports: Seq<Seq<char>>)
    ensures
        binary_candidates(binary, pkg_root, imports).len() > 0,
        binary_candidates(binary, pkg_root, imports)[0] == spec_join(pkg_root, binary),
        spec_file_name(binary) is None ==> binary_candidates(binary, pkg_root, imports).len() == 1,
        spec_file_name(binary) matches Some(name) ==> {
            let cands = binary_candidates(binary, pkg_root, imports);
            &&& cands.len() == 1 + 2 * imports.len()
            &&& forall|i: int|
                0 <= i < imports.len() ==> cands[1 + 2 * i] == spec_join(
                    spec_join(#[trigger] imports[i], seq!['b', 'i', 'n']),
                    name,
                ) && cands[2 + 2 * i] == spec_join(imports[i], binary)
        },
{
    if let Some(name) = spec_file_name(binary) {
        let cands = binary_candidates(binary, pkg_root, imports);
        let icands = import_candidates(imports, binary, name);
        assert(cands =~= seq![spec_join(pkg_root, binary)] + icands);
        assert forall|i: int| 0 <= i < imports.len() implies cands[1 + 2 * i] == spec_join(
            spec_join(#[trigger] imports[i], seq!['b', 'i', 'n']),
            name,
        ) && cands[2 + 2 * i] == spec_join(imports[i], binary) by {
            assert((2 * i) % 2 == 0);
            assert((2 * i) / 2 == i);
            assert((2 * i + 1) % 2 == 1);
            assert((2 * i + 1) / 2 == i);
            assert(cands[1 + 2 * i] == icands[2 * i]);
            assert(cands[2 + 2 * i] == icands[2 * i + 1]);
        }
    }
}

/// `path_exists` was asked about the path `p` and answered `answer`.
pub open spec fn observed<F: Fn(&str) -> bool>(path_exists: F, p: Seq<char>, answer: bool) -> bool {
    exists|s: &str| s@ == p && #[trigger] path_exists.ensures((s,), answer)
}

/// The message of the error for a binary path without a file name.
pub open spec fn malformed_message(binary: Seq<char>) -> Seq<char> {
    seq!['m', 'a', 'l', 'f', 'o', 'r', 'm', 'e', 'd', ':', ' '] + path_debug_text(binary)
}

/// The message of the error for a binary found nowhere.
pub open spec fn not_found_message(binary: Seq<char>) -> Seq<char> {
    seq!['n', 'o', 't', ' ', 'f', 'o', 'u', 'n', 'd', ':', ' '] + path_debug_text(binary)
}

/// Resolve the actual host binary path based on the config binary path.
///
/// Find an existing path in the following order:
/// 1. Relative to the package root.
/// 2. Relative to import paths: `<import>/bin/<file name>`, then
///    `<import>/<binary path>`.
/// 3. Otherwise, errors with Error::BinaryNotFound.
///
/// `path_exists` tells whether a path exists; the result is the first candidate
/// it answered `true` for.
pub fn resolve_binary_path<F: Fn(&str) -> bool>(
    binary_path: &str,
    pkg_root: &str,
    import_paths: &Vec<String>,
    path_exists: F,
) -> (res: Result<String, Error>)
    requires
        spec_is_absolute(pkg_root@),
        spec_file_name(binary_path@) is Some ==> forall|i: int|
            0 <= i < import_paths.len() ==> spec_is_absolute(#[trigger] import_paths[i]@),
        forall|s: &str| #[trigger] path_exists.requires((s,)),
    ensures
        ({
            let cands = binary_candidates(
                binary_path@,
                pkg_root@,
                import_paths@.map_values(|s: String| s@),
            );
            &&& res matches Ok(p) ==> exists|k: int|
                0 <= k < cands.len() && p@ == cands[k] && observed(path_exists, cands[k], true) && forall|
                    j: int,
                | 0 <= j < k ==> observed(path_exists, #[trigger] cands[j], false)
            &&& res matches Err(e) ==> {
                &&& forall|j: int| 0 <= j < cands.len() ==> observed(path_exists, #[trigger] cands[j], false)
                &&& e matches Error::BinaryNotFound(m) && m@ == if spec_file_name(
                    binary_path@,
                ) is None {
                    malformed_message(binary_path@)
                } else {
                    not_found_message(binary_path@)
                }
            }
        }),
{
    let ghost imps = import_paths@.map_values(|s: String| s@);
    let ghost cands = binary_candidates(binary_path@, pkg_root@, imps);
    // 1.
    let path = join(pkg_root, binary_path);
    let found = path_exists(path.as_str());
    assert(observed(path_exists, cands[0], found));
    if found {
        return Ok(path);
    }
    // 2.

    let name = match file_name(binary_path) {
        Some(n) => n,
        None => {
            let prefix = "malformed: ";
            proof {
                reveal_strlit("malformed: ");
            }
            let mut msg = prefix.to_owned();
            msg.append(path_debug(binary_path).as_str());
            assert(msg@ =~= malformed_message(binary_path@));
            return Err(Error::BinaryNotFound(msg));
        },
    };
    let ghost icands = import_candidates(imps, binary_path@, name@);
    assert(cands =~= seq![spec_join(pkg_root@, binary_path@)] + icands);
    let mut i: usize = 0;
    while i < import_paths.len()
        invariant
            i <= import_paths.len(),
            imps == import_paths@.map_values(|s: String| s@),
            cands == binary_candidates(binary_path@, pkg_root@, imps),
            spec_file_name(binary_path@) == Some(name@),
            icands == import_candidates(imps, binary_path@, name@),
            cands =~= seq![spec_join(pkg_root@, binary_path@)] + icands,
            forall|s: &str| #[trigger] path_exists.requires((s,)),
            forall|j: int| 0 <= j < 1 + 2 * i ==> observed(path_exists, #[trigger] cands[j], false),
        decreases import_paths.len() - i,
    {
        let import_path = &import_paths[i];
        assert(imps[i as int] == import_path@);
        let bin = "bin";
        proof {
            reveal_strlit("bin");
        }
        assert(bin@ =~= seq!['b', 'i', 'n']);
        let bin_dir = join(import_path.as_str(), bin);
        let path = join(bin_dir.as_str(), name.as_str());
        assert(icands[2 * i as int] == bin_dir_candidate(imps[i as int], name@)) by {
            assert((2 * i as int) % 2 == 0);
            assert((2 * i as int) / 2 == i);
        }
        assert(cands[1 + 2 * i] == icands[2 * i as int]);
        let found = path_exists(path.as_str());
        assert(observed(path_exists, cands[1 + 2 * i], found));
        if found {
            return Ok(path);
        }
        let path = join(import_path.as_str(), binary_path);
        assert(icands[2 * i + 1] == spec_join(imps[i as int], binary_path@)) by {
            assert((2 * i + 1) % 2 == 1);
            assert((2 * i + 1) / 2 == i);
        }
        assert(cands[2 + 2 * i] == icands[2 * i + 1]);
        let found = path_exists(path.as_str());
        assert(observed(path_exists, cands[2 + 2 * i], found));
        if found {
            return Ok(path);
        }
        i = i + 1;
    }
    // 3.
    let prefix = "not found: ";
    proof {
        reveal_strlit("not found: ");
    }
    let mut msg = prefix.to_owned();
    msg.append(path_debug(binary_path).as_str());
    assert(msg@ =~= not_found_message(binary_path@));
    Err(Error::BinaryNotFound(msg))
}

} // verus!
