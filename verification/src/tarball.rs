//! Gzipped tar archives, read through `tar` and `flate2`. Nothing is unpacked to
//! disk.
use vstd::prelude::*;
use vstd::utf8::{decode_utf8, valid_utf8};

verus! {

/// A member of an archive.
pub struct Member {
    /// Its path, as the archive stores it.
    pub path: Vec<u8>,
    pub size: u64,
    pub is_dir: bool,
}

/// What an archive lists of a member.
#[verifier::ext_equal]
pub struct MemberView {
    pub path: Seq<u8>,
    pub size: u64,
    pub is_dir: bool,
}

impl View for Member {
    type V = MemberView;

    open spec fn view(&self) -> MemberView {
        MemberView { path: self.path@, size: self.size, is_dir: self.is_dir }
    }
}

/// What reading an entry gave: a member, or the text of an error.
pub open spec fn entry_view(e: Result<Member, String>) -> Result<MemberView, Seq<char>> {
    match e {
        Ok(m) => Ok(m@),
        Err(t) => Err(t@),
    }
}

/// What reading the entries gave.
pub open spec fn entry_views(s: Seq<Result<Member, String>>) -> Seq<Result<MemberView, Seq<char>>> {
    Seq::new(s.len(), |i: int| entry_view(s[i]))
}

/// The entries that `tar` reads from a gzipped archive, in order, up to and with
/// the first that it cannot read; or the error where it cannot start.
pub uninterp spec fn tgz_entries(bytes: Seq<u8>) -> Result<
    Seq<Result<MemberView, Seq<char>>>,
    Seq<char>,
>;

/// `tar::Archive::entries` over `flate2::read::GzDecoder`, walked to its end: of
/// each entry `path_bytes`, `size` and whether its header is one of a directory.
/// The iterator ends after the first error.
#[verifier::external_body]
pub(crate) fn read_entries(bytes: &[u8]) -> (r: Result<Vec<Result<Member, String>>, String>)
    ensures
        match r {
            Ok(v) => tgz_entries(bytes@) == Ok::<
                Seq<Result<MemberView, Seq<char>>>,
                Seq<char>,
            >(entry_views(v@)),
            Err(e) => tgz_entries(bytes@) == Err::<
                Seq<Result<MemberView, Seq<char>>>,
                Seq<char>,
            >(e@),
        },
{
    let mut archive = tar::Archive::new(flate2::read::GzDecoder::new(bytes));
    let entries = archive.entries().map_err(|e| e.to_string())?;
    Ok(entries.map(|e| match e {
        Ok(e) => Ok(Member {
            path: e.path_bytes().into_owned(),
            size: e.size(),
            is_dir: e.header().entry_type().is_dir(),
        }),
        Err(e) => Err(e.to_string()),
    }).collect())
}

/// The text of the entry at `index` of a gzipped archive, at most `limit` bytes of
/// it, or the text of the error where it cannot be read as text.
pub uninterp spec fn tgz_text(bytes: Seq<u8>, index: usize, limit: u64) -> Result<
    Seq<char>,
    Seq<char>,
>;

/// `read_to_string` of the entry at `index` of `tar::Archive::entries`, over
/// `flate2::read::GzDecoder` and through `std::io::Read::take`.
#[verifier::external_body]
pub(crate) fn read_entry(bytes: &[u8], index: usize, limit: u64) -> (r: Result<String, String>)
    ensures
        match r {
            Ok(t) => tgz_text(bytes@, index, limit) == Ok::<Seq<char>, Seq<char>>(t@),
            Err(e) => tgz_text(bytes@, index, limit) == Err::<Seq<char>, Seq<char>>(e@),
        },
{
    let mut archive = tar::Archive::new(flate2::read::GzDecoder::new(bytes));
    let mut text = String::new();
    match archive.entries().map_err(|e| e.to_string())?.nth(index) {
        Some(Ok(e)) => std::io::Read::read_to_string(&mut std::io::Read::take(e, limit), &mut text)
            .map(|_| text)
            .map_err(|e| e.to_string()),
        Some(Err(e)) => Err(e.to_string()),
        None => Err(String::new()),
    }
}

/// `std::str::from_utf8`: the text that some bytes are, if they are UTF-8.
#[verifier::external_body]
pub(crate) fn utf8_text(bytes: &[u8]) -> (r: Option<&str>)
    ensures
        match r {
            Some(t) => valid_utf8(bytes@) && t@ == decode_utf8(bytes@),
            None => !valid_utf8(bytes@),
        },
{
    std::str::from_utf8(bytes).ok()
}

/// Bytes as characters, one for one.
pub open spec fn byte_chars(bytes: Seq<u8>) -> Seq<char> {
    Seq::new(bytes.len(), |i: int| bytes[i] as char)
}

/// Bytes as characters, one for one.
pub fn chars_of_bytes(bytes: &[u8]) -> (r: String)
    ensures
        r@ == byte_chars(bytes@),
{
    let mut s = String::new();
    let mut i: usize = 0;
    assert(s@ =~= byte_chars(bytes@).take(0));
    while i < bytes.len()
        invariant
            i <= bytes@.len(),
            s@ == byte_chars(bytes@).take(i as int),
        decreases bytes@.len() - i,
    {
        s.push(bytes[i] as char);
        i += 1;
        assert(s@ =~= byte_chars(bytes@).take(i as int));
    }
    assert(byte_chars(bytes@).take(i as int) =~= byte_chars(bytes@));
    s
}

} // verus!
