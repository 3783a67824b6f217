//! The `checksum` function of templates: a SHA-256 over a file's content, or
//! over the files of a directory in order, each by relative path and content.

use vstd::prelude::*;
use vstd::string::*;
use vstd::utf8::encode_utf8;
use crate::strutil::to_owned_string;
use crate::providers::circleci::base_hash::{sha256_hex, sha256_hex_of};

verus! {

broadcast use vstd::string::group_string_axioms;

/// What a checksummed path turned out to be: a file (its content, or why it
/// could not be read), a directory (its files in order, each with its path
/// relative to the project where it has one and its content where it could be
/// read; or why the directory could not be read), or neither.
pub enum ChecksumTarget {
    File(Result<Vec<u8>, String>),
    Directory(Result<Vec<(Option<String>, Option<Vec<u8>>)>, String>),
    Neither,
}

/// The bytes a directory checksum is computed over: for each readable file in
/// turn, its relative path (where it has one) and its content.
pub open spec fn directory_checksum_input(files: Seq<(Option<String>, Option<Vec<u8>>)>) -> Seq<u8>
    decreases files.len(),
{
    if files.len() == 0 {
        Seq::empty()
    } else {
        let (rel, content) = files.last();
        directory_checksum_input(files.drop_last()) + match content {
            Some(c) => (match rel {
                Some(r) => encode_utf8(r@),
                None => Seq::empty(),
            }) + c@,
            None => Seq::empty(),
        }
    }
}

/// What the checksum function gives for a path displayed as `display`.
pub open spec fn spec_checksum(target: ChecksumTarget, display: Seq<char>) -> Result<Seq<char>, Seq<char>> {
    match target {
        ChecksumTarget::File(Ok(content)) => Ok(sha256_hex(content@)),
        ChecksumTarget::File(Err(e)) => Err("Failed to read file '"@ + display + "': "@ + e@),
        ChecksumTarget::Directory(Ok(files)) => Ok(sha256_hex(directory_checksum_input(files@))),
        ChecksumTarget::Directory(Err(e)) => Err("Failed to read directory '"@ + display + "': "@ + e@),
        ChecksumTarget::Neither => Err("Path '"@ + display + "' is neither a file nor a directory"@),
    }
}

/// The checksum over the readable files of a directory.
pub fn directory_checksum(files: &Vec<(Option<String>, Option<Vec<u8>>)>) -> (r: String)
    ensures
        r@ == sha256_hex(directory_checksum_input(files@)),
{
    let mut data: Vec<u8> = Vec::new();
    let n = files.len();
    let mut i: usize = 0;
    while i < n
        invariant
            n == files@.len(),
            i <= n,
            data@ == directory_checksum_input(files@.take(i as int)),
        decreases n - i,
    {
        assert(files@.take(i + 1).drop_last() =~= files@.take(i as int));
        assert(files@.take(i + 1).last() == files@[i as int]);
        let ghost before = data@;
        match &files[i].1 {
            Some(content) => {
                match &files[i].0 {
                    Some(rel) => {
                        let mut bytes = rel.as_str().as_bytes_vec();
                        data.append(&mut bytes);
                    },
                    None => {},
                }
                let ghost mid = data@;
                let mut i2: usize = 0;
                let m = content.len();
                while i2 < m
                    invariant
                        m == content@.len(),
                        i2 <= m,
                        data@ == mid + content@.take(i2 as int),
                    decreases m - i2,
                {
                    data.push(content[i2]);
                    assert(content@.take(i2 + 1) =~= content@.take(i2 as int).push(content@[i2 as int]));
                    i2 = i2 + 1;
                }
                assert(content@.take(m as int) =~= content@);
                assert(data@ =~= before + (match files@[i as int].0 { Some(r) => encode_utf8(r@), None => Seq::<u8>::empty() } + content@));
            },
            None => {
                assert(data@ =~= before + Seq::<u8>::empty());
            },
        }
        i = i + 1;
    }
    assert(files@.take(n as int) =~= files@);
    sha256_hex_of(data.as_slice())
}

/// The checksum of a path displayed as `display`: the hash of a file's
/// content or of a directory's files; an error when it cannot be read or is
/// neither a file nor a directory.
pub fn checksum_function(target: &ChecksumTarget, display: &str) -> (r: Result<String, String>)
    ensures
        match (r, spec_checksum(*target, display@)) {
            (Ok(a), Ok(b)) => a@ == b,
            (Err(a), Err(b)) => a@ == b,
            _ => false,
        },
{
    match target {
        ChecksumTarget::File(Ok(content)) => Ok(sha256_hex_of(content.as_slice())),
        ChecksumTarget::File(Err(e)) => {
            let mut m = to_owned_string("Failed to read file '");
            m.append(display);
            m.append("': ");
            m.append(e.as_str());
            Err(m)
        },
        ChecksumTarget::Directory(Ok(files)) => Ok(directory_checksum(files)),
        ChecksumTarget::Directory(Err(e)) => {
            let mut m = to_owned_string("Failed to read directory '");
            m.append(display);
            m.append("': ");
            m.append(e.as_str());
            Err(m)
        },
        ChecksumTarget::Neither => {
            let mut m = to_owned_string("Path '");
            m.append(display);
            m.append("' is neither a file nor a directory");
            Err(m)
        },
    }
}

} // verus!
