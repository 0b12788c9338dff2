//! What is inside a local image archive, before it is copied anywhere.
use crate::error::{other, AppResult};
use crate::json::{
    deref_opt, elements, int_of, int_or_zero, int_value, json_text, member, member_text, parse_json,
    string_list, string_or, strings_in, Json,
};
use crate::numbers::{lemma_wrapped_again, wrapped, wrapping_sum};
use crate::text::{cat2, has_prefix, no_texts, push_text, starts_with, texts};
use vstd::prelude::*;

verus! {

/// What matters of an image inside an archive.
#[derive(Clone, Debug)]
pub struct ArchiveInfo {
    /// The image's name (e.g. `docker.io/library/nginx`); may be empty.
    pub name: String,
    /// The tags in the archive.
    pub repo_tags: Vec<String>,
    /// The content digest.
    pub digest: String,
    /// Target architecture, e.g. `amd64`.
    pub architecture: String,
    /// Target operating system, e.g. `linux`.
    pub os: String,
    /// When the image was built.
    pub created: String,
    /// Size of all layers, in bytes.
    pub size_bytes: i64,
}

/// How `skopeo` is told where an archive is: a path is that of an archive, a
/// place that names its transport stays as it is.
pub open spec fn transport_of(path: Seq<char>) -> Seq<char> {
    if has_prefix(path, "oci:"@) || has_prefix(path, "docker-archive:"@) {
        path
    } else {
        "docker-archive:"@ + path
    }
}

/// How `skopeo` is told where an archive is.
pub fn archive_transport(path: &str) -> (r: String)
    ensures
        r@ == transport_of(path@),
{
    if starts_with(path, "oci:") || starts_with(path, "docker-archive:") {
        path.to_owned()
    } else {
        cat2("docker-archive:", path)
    }
}

/// The sizes that the layers state, summed; one without a size counts nothing.
pub open spec fn stated_sizes(s: Seq<Json>) -> int
    decreases s.len(),
{
    if s.len() == 0 {
        0
    } else {
        stated_sizes(s.drop_last()) + int_or_zero(member(s.last(), "Size"@))
    }
}

/// The size that a document states, or the sizes of its layers.
pub open spec fn archive_size(j: Json) -> int {
    match int_of(member(j, "Size"@)) {
        Some(n) => n as int,
        None => wrapped(stated_sizes(elements(member(j, "LayersData"@)))),
    }
}

fn layer_total(o: Option<&Json>) -> (r: i64)
    ensures
        r == wrapped(stated_sizes(elements(deref_opt(o)))),
{
    let mut total: i64 = 0;
    if let Some(Json::Array(a)) = o {
        let mut i: usize = 0;
        while i < a.len()
            invariant
                i <= a@.len(),
                total == wrapped(stated_sizes(a@.take(i as int))),
            decreases a@.len() - i,
        {
            let n: i64 = int_value(a[i].get("Size"));
            proof {
                assert(a@.take(i + 1).drop_last() =~= a@.take(i as int));
                lemma_wrapped_again(stated_sizes(a@.take(i as int)), n as int);
            }
            total = wrapping_sum(total, n);
            i += 1;
        }
        assert(a@.take(i as int) =~= a@);
    }
    total
}

/// Reads what `skopeo inspect --config` says of an archive. What is missing is
/// empty or zero.
pub fn read_inspection(doc: &Json) -> (r: ArchiveInfo)
    ensures
        r.name@ == string_or(member(*doc, "Name"@), ""@),
        texts(r.repo_tags@) == strings_in(elements(member(*doc, "RepoTags"@))),
        r.digest@ == string_or(member(*doc, "Digest"@), ""@),
        r.architecture@ == string_or(member(*doc, "Architecture"@), ""@),
        r.os@ == string_or(member(*doc, "Os"@), ""@),
        r.created@ == string_or(member(*doc, "Created"@), ""@),
        r.size_bytes == archive_size(*doc),
{
    let size = doc.get("Size");
    let stated: Option<i64> = match size {
        Some(Json::Number(n)) => n.int,
        _ => None,
    };
    let size_bytes = match stated {
        Some(n) => n,
        None => layer_total(doc.get("LayersData")),
    };
    ArchiveInfo {
        name: member_text(doc, "Name", ""),
        repo_tags: string_list(doc.get("RepoTags")),
        digest: member_text(doc, "Digest", ""),
        architecture: member_text(doc, "Architecture", ""),
        os: member_text(doc, "Os", ""),
        created: member_text(doc, "Created", ""),
        size_bytes,
    }
}

/// The argument list that inspects the archive at `path`.
pub fn inspect_argv(path: &str) -> (r: Vec<String>)
    ensures
        texts(r@) == seq!["inspect"@, "--config"@, transport_of(path@)],
{
    let place = archive_transport(path);
    let mut v = no_texts();
    push_text(&mut v, "inspect");
    push_text(&mut v, "--config");
    push_text(&mut v, place.as_str());
    assert(texts(v@) =~= seq!["inspect"@, "--config"@, transport_of(path@)]);
    v
}

/// Reads how `skopeo inspect --config` ended and what it printed.
pub fn inspect_archive(success: bool, stdout: &str, stderr: &str) -> (r: AppResult<ArchiveInfo>)
    ensures
        match (r, json_text(stdout@)) {
            (Ok(x), Ok(doc)) => success && {
                &&& x.name@ == string_or(member(doc, "Name"@), ""@)
                &&& texts(x.repo_tags@) == strings_in(elements(member(doc, "RepoTags"@)))
                &&& x.digest@ == string_or(member(doc, "Digest"@), ""@)
                &&& x.architecture@ == string_or(member(doc, "Architecture"@), ""@)
                &&& x.os@ == string_or(member(doc, "Os"@), ""@)
                &&& x.created@ == string_or(member(doc, "Created"@), ""@)
                &&& x.size_bytes == archive_size(doc)
            },
            (Ok(_), Err(_)) => false,
            (Err(e), Ok(_)) => !success && e.is_other("skopeo inspect failed: "@ + stderr@),
            (Err(e), Err(why)) => if success {
                e.is_other("parse skopeo inspect output: "@ + why)
            } else {
                e.is_other("skopeo inspect failed: "@ + stderr@)
            },
        },
{
    if !success {
        let m = cat2("skopeo inspect failed: ", stderr);
        return Err(other(m.as_str()));
    }
    match parse_json(stdout) {
        Ok(doc) => Ok(read_inspection(&doc)),
        Err(why) => {
            let m = cat2("parse skopeo inspect output: ", why.as_str());
            Err(other(m.as_str()))
        },
    }
}

// ---------------------------------------------------------------------------
// Laws
// ---------------------------------------------------------------------------

/// A plain path is that of an archive; a place that names its transport stays as it is.
pub proof fn law_paths_are_those_of_archives(path: &str, r: String, argv: Vec<String>)
    requires
        call_ensures(archive_transport, (path,), r),
        call_ensures(inspect_argv, (path,), argv),
    ensures
        has_prefix(path@, "oci:"@) || has_prefix(path@, "docker-archive:"@) ==> r@ == path@,
        !has_prefix(path@, "oci:"@) && !has_prefix(path@, "docker-archive:"@) ==> r@
            == "docker-archive:"@ + path@,
        texts(argv@) == seq!["inspect"@, "--config"@, r@],
{
}

proof fn lemma_stated_sizes(s: Seq<Json>)
    ensures
        stated_sizes(s) == s.fold_left(
            0int,
            |n: int, j: Json| n + int_or_zero(member(j, "Size"@)),
        ),
    decreases s.len(),
{
    reveal_with_fuel(Seq::fold_left, 2);
    if s.len() > 0 {
        lemma_stated_sizes(s.drop_last());
    }
}

/// The size is the one that is stated, or that of all layers together.
pub proof fn law_size_is_stated_or_that_of_the_layers(doc: Json, layers: Vec<Json>, r: ArchiveInfo)
    requires
        call_ensures(read_inspection, (&doc,), r),
    ensures
        member(doc, "Size"@) matches Some(Json::Number(n)) ==> (n.int matches Some(k)
            ==> r.size_bytes == k),
        ({
            let total = layers@.fold_left(
                0int,
                |n: int, j: Json| n + int_or_zero(member(j, "Size"@)),
            );
            member(doc, "Size"@) is None && member(doc, "LayersData"@) == Some(Json::Array(layers))
                && i64::MIN <= total <= i64::MAX ==> r.size_bytes == total
        }),
{
    lemma_stated_sizes(layers@);
}

/// What an inspection shows is what the document says under the names that `skopeo` uses.
pub proof fn law_inspection_shows_what_the_document_says(doc: Json, r: ArchiveInfo)
    requires
        call_ensures(read_inspection, (&doc,), r),
    ensures
        member(doc, "Name"@) matches Some(Json::Str(s)) ==> r.name@ == s@,
        member(doc, "Digest"@) matches Some(Json::Str(s)) ==> r.digest@ == s@,
        member(doc, "Architecture"@) matches Some(Json::Str(s)) ==> r.architecture@ == s@,
        member(doc, "Os"@) matches Some(Json::Str(s)) ==> r.os@ == s@,
        member(doc, "Created"@) matches Some(Json::Str(s)) ==> r.created@ == s@,
        member(doc, "Name"@) is None ==> r.name@.len() == 0,
        member(doc, "Digest"@) is None ==> r.digest@.len() == 0,
{
    reveal_strlit("");
}

/// An inspection that succeeded is read as the document it printed, and one that failed is an
/// error.
pub proof fn law_inspection_is_read_where_it_succeeded(
    stdout: &str,
    stderr: &str,
    doc: Json,
    r: AppResult<ArchiveInfo>,
    failed: AppResult<ArchiveInfo>,
    info: ArchiveInfo,
)
    requires
        call_ensures(inspect_archive, (true, stdout, stderr), r),
        call_ensures(inspect_archive, (false, stdout, stderr), failed),
        json_text(stdout@) == Ok::<Json, Seq<char>>(doc),
        call_ensures(read_inspection, (&doc,), info),
    ensures
        r matches Ok(x) && x.name@ == info.name@ && x.digest@ == info.digest@ && x.size_bytes
            == info.size_bytes && x.architecture@ == info.architecture@ && x.os@ == info.os@
            && x.created@ == info.created@ && texts(x.repo_tags@) == texts(info.repo_tags@),
        failed is Err,
{
}

} // verus!
