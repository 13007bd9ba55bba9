//! Where a vault is put beside its source, and where its contents are restored.

use std::path::{Path, PathBuf};
use vstd::prelude::*;

verus! {

/// The view of an optional string.
pub open spec fn optional_text(text: Option<String>) -> Option<Seq<char>> {
    match text {
        Some(t) => Some(t@),
        None => None,
    }
}

/// The extension of a path, as the target's path rules have it.
pub uninterp spec fn extension_of(path: Seq<char>) -> Option<Seq<char>>;

/// The file name of a path, as the target's path rules have it.
pub uninterp spec fn file_name_of(path: Seq<char>) -> Option<Seq<char>>;

/// A path with its extension replaced, as the target's path rules have it.
pub uninterp spec fn replaced_extension(path: Seq<char>, extension: Seq<char>) -> Seq<char>;

/// A path in quotes, with what is not printable escaped.
pub uninterp spec fn quoted_path(path: Seq<char>) -> Seq<char>;

/// A character that some target's path rules give a meaning of its own.
pub open spec fn is_delimiter(c: char) -> bool {
    c == '/' || c == '\\' || c == ':'
}

/// A character that separates the components of a path on some target.
pub open spec fn is_slash(c: char) -> bool {
    c == '/' || c == '\\'
}

/// A path that starts as a network path: with two slashes.
pub open spec fn starts_network(path: Seq<char>) -> bool {
    path.len() >= 2 && is_slash(path[0]) && is_slash(path[1])
}

/// The slashes at `i` and `j` end the server and the share of a network path.
pub open spec fn share_ends(path: Seq<char>, i: int, j: int) -> bool {
    &&& 2 < i
    &&& i + 1 < j < path.len()
    &&& is_slash(path[i])
    &&& is_slash(path[j])
    &&& !is_slash(path[j - 1])
}

/// A network path names a server and a share, and goes on behind them.
pub open spec fn goes_beyond_share(path: Seq<char>) -> bool {
    &&& path.len() > 2
    &&& !is_slash(path[2])
    &&& path[2] != '?'
    &&& exists|i: int, j: int| share_ends(path, i, j)
}

/// A path that ends in a file name on every target: it does not end in a
/// delimiter or in the component `.`, and if it starts as a network path, it
/// goes on behind server and share.
pub open spec fn names_a_file(path: Seq<char>) -> bool {
    &&& path.len() > 0
    &&& !is_delimiter(path.last())
    &&& path.last() == '.' ==> path.len() >= 2 && !is_delimiter(path[path.len() - 2])
    &&& starts_network(path) ==> goes_beyond_share(path)
}

/// Text that can follow the final dot of a file name.
pub open spec fn is_suffix(text: Seq<char>) -> bool {
    &&& text.len() > 0
    &&& forall|i: int| 0 <= i < text.len() ==> text[i] != '.' && !is_delimiter(#[trigger] text[i])
}

/// A path ends in its file name, by the target's path rules, and the file name
/// starts before the last `tail` characters, with more than a single dot.
pub open spec fn ends_in_file_name(path: Seq<char>, tail: nat) -> bool {
    &&& file_name_of(path) is Some
    &&& ({
        let name = file_name_of(path)->Some_0;
        &&& tail < name.len() <= path.len()
        &&& name == path.skip(path.len() - name.len())
        &&& name.len() == tail + 1 ==> name[0] != '.'
    })
}

/// `path` is `stem`, a dot and `suffix`, and its file name starts in the stem:
/// on every target, or by the rules of this one.
pub open spec fn has_suffix(path: Seq<char>, stem: Seq<char>, suffix: Seq<char>) -> bool {
    &&& is_suffix(suffix)
    &&& path == stem.push('.') + suffix
    &&& names_a_file(stem) || ends_in_file_name(path, suffix.len() + 1)
}

/// The vault that `vault_path` puts beside the file at `source` has a file name
/// that goes on before `.aegis`: on every target, or by the rules of this one.
pub open spec fn leads_back(source: Seq<char>) -> bool {
    names_a_file(source) || ends_in_file_name(source + ".aegis"@, 6)
}

/// Calls `std::path::Path::file_name`: the final component of the path, if it
/// is a normal one. The name stands for the function of the target that the
/// crate is built for.
#[verifier::external_body]
fn path_file_name(path: &str) -> (r: Option<String>)
    ensures
        optional_text(r) == file_name_of(path@),
{
    Path::new(path).file_name().map(|e| e.to_string_lossy().into_owned())
}

/// Calls `std::path::Path::extension`: the part of the file name after the
/// final dot. How a path splits is fixed by the target; the name stands for the
/// function of the target that the crate is built for. Where the file name
/// starts before the final dot, what follows this dot is the extension.
#[verifier::external_body]
fn path_extension(path: &str) -> (r: Option<String>)
    ensures
        optional_text(r) == extension_of(path@),
        forall|stem: Seq<char>, suffix: Seq<char>| #[trigger]
            has_suffix(path@, stem, suffix) ==> optional_text(r) == Some(suffix),
{
    Path::new(path).extension().map(|e| e.to_string_lossy().into_owned())
}

/// Calls `std::path::Path::with_extension`: the path with its extension
/// replaced, or dropped where the new one is empty. The function panics on an
/// extension that holds a separator. The name stands for the function of the
/// target that the crate is built for. Where the path ends in a file name that
/// starts before the final dot, an empty extension leaves what stands before
/// this dot.
#[verifier::external_body]
fn path_with_extension(path: &str, extension: &str) -> (r: String)
    requires
        forall|i: int| 0 <= i < extension@.len() ==> !is_delimiter(#[trigger] extension@[i]),
    ensures
        r@ == replaced_extension(path@, extension@),
        forall|stem: Seq<char>, suffix: Seq<char>| #[trigger]
            has_suffix(path@, stem, suffix) && extension@.len() == 0 ==> r@ == stem,
{
    Path::new(path).with_extension(extension).to_string_lossy().into_owned()
}

/// Formats a `std::path::PathBuf` with `Debug`: the path in quotes, escaped.
#[verifier::external_body]
pub(crate) fn quote_path(path: &str) -> (r: String)
    ensures
        r@ == quoted_path(path@),
{
    format!("{:?}", PathBuf::from(path))
}

/// Where the vault of the file at `path` is put: its path with `.aegis` behind.
pub fn vault_path(path: &str) -> (r: String)
    ensures
        r@ == path@ + ".aegis"@,
{
    let mut r = path.to_owned();
    r.append(".aegis");
    r
}

/// The extension that a restored file gets instead of `extension`: none for
/// that of a vault, `decrypted` for any other.
pub open spec fn extension_after(extension: Option<Seq<char>>) -> Seq<char> {
    if extension == Some("aegis"@) {
        ""@
    } else {
        "decrypted"@
    }
}

/// Where the contents of the vault at `path` are restored.
pub open spec fn restored(path: Seq<char>) -> Seq<char> {
    replaced_extension(path, extension_after(extension_of(path)))
}

/// The extension that a restored file gets instead of `extension`.
pub fn restored_extension(extension: Option<String>) -> (r: &'static str)
    ensures
        r@ == extension_after(optional_text(extension)),
        optional_text(extension) == Some("aegis"@) ==> r@ == ""@,
        optional_text(extension) != Some("aegis"@) ==> r@ == "decrypted"@,
{
    match extension {
        Some(e) => if e == "aegis".to_owned() {
            ""
        } else {
            "decrypted"
        },
        None => "decrypted",
    }
}

/// Where the contents of the vault at `path` are restored: without its
/// extension if that is `aegis`, else with the extension `decrypted`. A vault
/// that stands where `vault_path` puts it is restored at its source's path,
/// wherever this path ends in a file name.
pub fn decrypted_path(path: &str) -> (r: String)
    ensures
        r@ == restored(path@),
        extension_of(path@) == Some("aegis"@) ==> r@ == replaced_extension(path@, ""@),
        extension_of(path@) != Some("aegis"@) ==> r@ == replaced_extension(path@, "decrypted"@),
        forall|source: Seq<char>|
            leads_back(source) && path@ == #[trigger] (source + ".aegis"@) ==> r@ == source,
{
    let extension = restored_extension(path_extension(path));
    proof {
        reveal_strlit("");
        reveal_strlit("decrypted");
        reveal_strlit("aegis");
        reveal_strlit(".aegis");
        assert forall|source: Seq<char>|
            leads_back(source) && path@ == #[trigger] (source + ".aegis"@) implies has_suffix(
            path@,
            source,
            "aegis"@,
        ) by {
            assert(source + ".aegis"@ =~= source.push('.') + "aegis"@);
        }
    }
    path_with_extension(path, extension)
}

/// Whether the vault of the file at `source` has a file name, by the rules of
/// this target, that goes on before `.aegis`. Its contents are then restored at
/// `source`.
pub fn restores_in_place(source: &str) -> (r: bool)
    ensures
        r == ends_in_file_name(source@ + ".aegis"@, 6),
        r ==> restored(source@ + ".aegis"@) == source@,
{
    let vault = vault_path(source);
    let _ = decrypted_path(vault.as_str());
    match path_file_name(vault.as_str()) {
        None => false,
        Some(name) => {
            let len: usize = vault.as_str().unicode_len();
            let name_len: usize = name.as_str().unicode_len();
            if name_len <= 6 || name_len > len {
                return false;
            }
            if name_len == 7 && name.as_str().get_char(0) == '.' {
                return false;
            }
            let tail = vault.as_str().substring_char(len - name_len, len).to_owned();
            assert(tail@ =~= vault@.skip(len - name_len));
            tail == name
        },
    }
}

} // verus!
