//! Exporting a container image from the runtime of a node to a local `.tar`
//! file: the reverse of [`crate::image::import`].
use crate::error::{other, AppResult};
use crate::image::import::{
    detect_runtime, lemma_runtime_of, name_part, runtime_of, sanitize_for_name, unsupported_text,
};
use crate::json::{json_text, member, parse_json, string_of, Json};
use crate::nodeshell::{chosen_image, shell_image};
use crate::paths::{goes_up, has_parent_dir};
use crate::text::{
    alnum, cat2, cat3, cat4, cat5, chars_of, dec, dec_u64, is_alnum, lemma_last_piece,
    lemma_numbered_differ, lemma_pieces_nonempty, lines, lines_of, no_texts, opt_text, pieces,
    push_text, same, split, texts, trim, trimmed,
};
use vstd::prelude::*;

verus! {

/// Result of exporting an image from a node.
#[derive(Clone, Debug)]
pub struct ExportResult {
    /// Runtime family: "containerd" or "docker".
    pub runtime: String,
    /// What was exported where, on success.
    pub output: String,
    /// Exported image references.
    pub images: Vec<String>,
    /// Local file path the archive was saved to.
    pub saved_path: String,
    /// `None` on success; the reason on failure.
    pub error: Option<String>,
}

// ---------------------------------------------------------------------------
// Checking what the caller asks for
// ---------------------------------------------------------------------------

/// A character of an image reference.
pub open spec fn is_ref_char(c: char) -> bool {
    is_alnum(c) || c == '.' || c == '-' || c == '_' || c == ':' || c == '/' || c == '@'
}

/// Every character may stand in an image reference.
pub open spec fn all_ref_chars(s: Seq<char>) -> bool {
    forall|i: int| 0 <= i < s.len() ==> is_ref_char(#[trigger] s[i])
}

/// A text that may be an image reference.
pub open spec fn is_image_ref(s: Seq<char>) -> bool {
    s.len() > 0 && all_ref_chars(s)
}

/// Why a text is no image reference.
pub open spec fn bad_ref_text(s: Seq<char>) -> Seq<char> {
    if s.len() == 0 {
        "image reference is empty"@
    } else {
        "image reference '"@ + s
            + "' contains forbidden characters (allowed: A-Z a-z 0-9 . - _ : / @)"@
    }
}

/// Checks an image reference before it reaches a container runtime. It holds
/// only letters, digits and `.`, `-`, `_`, `:`, `/`, `@`.
pub fn validate_image_ref(image_ref: &str) -> (r: AppResult<()>)
    ensures
        match r {
            Ok(_) => is_image_ref(image_ref@),
            Err(e) => !is_image_ref(image_ref@) && e.is_other(bad_ref_text(image_ref@)),
        },
{
    if image_ref.is_empty() {
        return Err(other("image reference is empty"));
    }
    let v = chars_of(image_ref);
    let mut i: usize = 0;
    while i < v.len()
        invariant
            v@ == image_ref@,
            v@.len() > 0,
            i <= v@.len(),
            forall|j: int| 0 <= j < i ==> is_ref_char(#[trigger] image_ref@[j]),
        decreases v@.len() - i,
    {
        let c = v[i];
        if !(alnum(c) || c == '.' || c == '-' || c == '_' || c == ':' || c == '/' || c == '@') {
            assert(!is_ref_char(image_ref@[i as int]));
            let m = cat3(
                "image reference '",
                image_ref,
                "' contains forbidden characters (allowed: A-Z a-z 0-9 . - _ : / @)",
            );
            return Err(other(m.as_str()));
        }
        i += 1;
    }
    Ok(())
}

/// The first segment that names something, from `from` on.
pub open spec fn first_segment(ps: Seq<Seq<char>>, from: int) -> Seq<char>
    decreases ps.len() - from,
{
    if from < 0 || from >= ps.len() {
        Seq::empty()
    } else if ps[from].len() == 0 || ps[from] == "."@ {
        first_segment(ps, from + 1)
    } else {
        ps[from]
    }
}

/// A directory at the root that belongs to the system.
pub open spec fn is_system_dir(s: Seq<char>) -> bool {
    s == "etc"@ || s == "usr"@ || s == "bin"@ || s == "sbin"@ || s == "boot"@ || s == "lib"@ || s
        == "lib64"@ || s == "proc"@ || s == "sys"@ || s == "dev"@
}

/// Why a file may not be saved at `path`, if there is a reason.
pub open spec fn save_path_problem(path: Seq<char>) -> Option<Seq<char>> {
    let first = first_segment(pieces(path, '/'), 0);
    if path.len() == 0 {
        Some("save path is empty"@)
    } else if path[0] != '/' {
        Some("save path '"@ + path + "' must be absolute"@)
    } else if goes_up(path) {
        Some(
            "save path '"@ + path
                + "' contains a forbidden component (parent-dir or cur-dir reference)"@,
        )
    } else if is_system_dir(first) {
        Some(
            "save path '"@ + path + "' is inside a system directory ('/"@ + first
                + "') and is refused"@,
        )
    } else {
        None
    }
}

fn system_dir(s: &str) -> (r: bool)
    ensures
        r == is_system_dir(s@),
{
    same(s, "etc") || same(s, "usr") || same(s, "bin") || same(s, "sbin") || same(s, "boot")
        || same(s, "lib") || same(s, "lib64") || same(s, "proc") || same(s, "sys") || same(
        s,
        "dev",
    )
}

/// Checks a local path that an archive is to be written to: absolute, without
/// parent references, and outside the directories of the system.
pub fn validate_save_path(save_path: &str) -> (r: AppResult<()>)
    ensures
        match r {
            Ok(_) => save_path_problem(save_path@) is None,
            Err(e) => save_path_problem(save_path@) is Some && e.is_other(
                save_path_problem(save_path@)->0,
            ),
        },
{
    if save_path.is_empty() {
        return Err(other("save path is empty"));
    }
    if save_path.get_char(0) != '/' {
        let m = cat3("save path '", save_path, "' must be absolute");
        return Err(other(m.as_str()));
    }
    if has_parent_dir(save_path) {
        let m = cat3(
            "save path '",
            save_path,
            "' contains a forbidden component (parent-dir or cur-dir reference)",
        );
        return Err(other(m.as_str()));
    }
    let parts = split(save_path, '/');
    let ghost ps = pieces(save_path@, '/');
    let mut k: usize = 0;
    while k < parts.len() && (parts[k].as_str().is_empty() || same(parts[k].as_str(), "."))
        invariant
            k <= parts@.len(),
            texts(parts@) == ps,
            first_segment(ps, 0) == first_segment(ps, k as int),
        decreases parts@.len() - k,
    {
        assert(ps[k as int] == parts@[k as int]@);
        k += 1;
    }
    let first = if k < parts.len() {
        assert(ps[k as int] == parts@[k as int]@);
        parts[k].clone()
    } else {
        String::new()
    };
    assert(first@ =~= first_segment(ps, 0));
    if system_dir(first.as_str()) {
        let m = cat5(
            "save path '",
            save_path,
            "' is inside a system directory ('/",
            first.as_str(),
            "') and is refused",
        );
        return Err(other(m.as_str()));
    }
    Ok(())
}

// ---------------------------------------------------------------------------
// Commands
// ---------------------------------------------------------------------------

/// The words that enter the host's namespaces.
pub open spec fn nsenter_words() -> Seq<Seq<char>> {
    seq![
        "nsenter"@,
        "--target"@,
        "1"@,
        "--mount"@,
        "--uts"@,
        "--ipc"@,
        "--net"@,
        "--pid"@,
        "--"@,
    ]
}

/// The fixed prefix of every command that reaches the host from the debug pod.
pub fn nsenter_prefix() -> (r: Vec<String>)
    ensures
        texts(r@) == nsenter_words(),
{
    let mut v = no_texts();
    push_text(&mut v, "nsenter");
    push_text(&mut v, "--target");
    push_text(&mut v, "1");
    push_text(&mut v, "--mount");
    push_text(&mut v, "--uts");
    push_text(&mut v, "--ipc");
    push_text(&mut v, "--net");
    push_text(&mut v, "--pid");
    push_text(&mut v, "--");
    assert(texts(v@) =~= nsenter_words());
    v
}

/// The words that write an image to standard output, runtime by runtime.
pub open spec fn export_words(runtime: Seq<char>, image_ref: Seq<char>) -> Option<Seq<Seq<char>>> {
    if runtime == "containerd"@ {
        Some(
            nsenter_words() + seq![
                "ctr"@,
                "--address"@,
                "/run/containerd/containerd.sock"@,
                "images"@,
                "export"@,
                "--output"@,
                "-"@,
                image_ref,
            ],
        )
    } else if runtime == "docker"@ {
        Some(nsenter_words() + seq!["docker"@, "save"@, image_ref])
    } else {
        None
    }
}

/// The argument list that writes the image to standard output. The reference is
/// an argument of its own, never part of a shell command.
pub fn export_command(runtime: &str, image_ref: &str) -> (r: AppResult<Vec<String>>)
    ensures
        match r {
            Ok(argv) => is_image_ref(image_ref@) && export_words(runtime@, image_ref@) == Some(
                texts(argv@),
            ),
            Err(e) => if is_image_ref(image_ref@) {
                export_words(runtime@, image_ref@) is None && e.is_other(
                    "unsupported runtime '"@ + runtime@ + "'"@,
                )
            } else {
                e.is_other(bad_ref_text(image_ref@))
            },
        },
{
    match validate_image_ref(image_ref) {
        Err(e) => {
            return Err(e);
        },
        Ok(_) => {},
    }
    let mut argv = nsenter_prefix();
    if same(runtime, "containerd") {
        push_text(&mut argv, "ctr");
        push_text(&mut argv, "--address");
        push_text(&mut argv, "/run/containerd/containerd.sock");
        push_text(&mut argv, "images");
        push_text(&mut argv, "export");
        push_text(&mut argv, "--output");
        push_text(&mut argv, "-");
        push_text(&mut argv, image_ref);
        assert(texts(argv@) =~= export_words(runtime@, image_ref@)->0);
    } else if same(runtime, "docker") {
        push_text(&mut argv, "docker");
        push_text(&mut argv, "save");
        push_text(&mut argv, image_ref);
        assert("docker"@ != "containerd"@) by {
            reveal_strlit("docker");
            reveal_strlit("containerd");
        }
        assert(texts(argv@) =~= export_words(runtime@, image_ref@)->0);
    } else {
        let m = cat3("unsupported runtime '", runtime, "'");
        return Err(other(m.as_str()));
    }
    Ok(argv)
}

/// The words that list the images of a node, runtime by runtime.
pub open spec fn list_words(runtime: Seq<char>) -> Option<Seq<Seq<char>>> {
    if runtime == "containerd"@ {
        Some(
            nsenter_words() + seq![
                "ctr"@,
                "--address"@,
                "/run/containerd/containerd.sock"@,
                "images"@,
                "list"@,
                "-q"@,
            ],
        )
    } else if runtime == "docker"@ {
        Some(nsenter_words() + seq!["docker"@, "images"@, "--format"@, "json"@])
    } else {
        None
    }
}

/// The argument list that lists the images of a node.
pub fn list_command(runtime: &str) -> (r: AppResult<Vec<String>>)
    ensures
        match r {
            Ok(argv) => list_words(runtime@) == Some(texts(argv@)),
            Err(e) => list_words(runtime@) is None && e.is_other(
                "unsupported runtime '"@ + runtime@ + "'"@,
            ),
        },
{
    let mut argv = nsenter_prefix();
    if same(runtime, "containerd") {
        push_text(&mut argv, "ctr");
        push_text(&mut argv, "--address");
        push_text(&mut argv, "/run/containerd/containerd.sock");
        push_text(&mut argv, "images");
        push_text(&mut argv, "list");
        push_text(&mut argv, "-q");
        assert(texts(argv@) =~= list_words(runtime@)->0);
    } else if same(runtime, "docker") {
        push_text(&mut argv, "docker");
        push_text(&mut argv, "images");
        push_text(&mut argv, "--format");
        push_text(&mut argv, "json");
        assert("docker"@ != "containerd"@) by {
            reveal_strlit("docker");
            reveal_strlit("containerd");
        }
        assert(texts(argv@) =~= list_words(runtime@)->0);
    } else {
        let m = cat3("unsupported runtime '", runtime, "'");
        return Err(other(m.as_str()));
    }
    Ok(argv)
}

// ---------------------------------------------------------------------------
// Listing
// ---------------------------------------------------------------------------

/// The reference that one entry of `docker images --format json` names; images
/// without a repository or a tag have none.
pub open spec fn docker_ref(j: Json) -> Option<Seq<char>> {
    match (string_of(member(j, "Repository"@)), string_of(member(j, "Tag"@))) {
        (Some(repo), Some(tag)) => if repo == "<none>"@ || tag == "<none>"@ {
            None
        } else {
            Some(repo + ":"@ + tag)
        },
        _ => None,
    }
}

/// The reference that one entry of `docker images --format json` names.
pub fn docker_image(j: &Json) -> (r: Option<String>)
    ensures
        opt_text(r) == docker_ref(*j),
{
    match (j.get("Repository"), j.get("Tag")) {
        (Some(Json::Str(repo)), Some(Json::Str(tag))) => {
            if same(repo.as_str(), "<none>") || same(tag.as_str(), "<none>") {
                None
            } else {
                Some(cat3(repo.as_str(), ":", tag.as_str()))
            }
        },
        _ => None,
    }
}

/// The reference that one line of a listing names.
pub open spec fn listed_ref(line: Seq<char>, docker: bool) -> Option<Seq<char>> {
    let l = trimmed(line);
    if docker {
        match json_text(l) {
            Ok(j) => docker_ref(j),
            Err(_) => None,
        }
    } else if l.len() > 0 {
        Some(l)
    } else {
        None
    }
}

/// The references that some lines of a listing name, in order.
pub open spec fn listed_refs(ls: Seq<Seq<char>>, docker: bool) -> Seq<Seq<char>>
    decreases ls.len(),
{
    if ls.len() == 0 {
        Seq::empty()
    } else {
        match listed_ref(ls.last(), docker) {
            Some(x) => listed_refs(ls.drop_last(), docker).push(x),
            None => listed_refs(ls.drop_last(), docker),
        }
    }
}

fn line_image(line: &str, docker: bool) -> (r: Option<String>)
    ensures
        opt_text(r) == listed_ref(line@, docker),
{
    let l = trim(line);
    if docker {
        match parse_json(l) {
            Ok(j) => docker_image(&j),
            Err(_) => None,
        }
    } else if !l.is_empty() {
        Some(l.to_owned())
    } else {
        None
    }
}

/// The image references in a listing: one JSON object a line from docker, one
/// reference a line from containerd, and none from any other runtime.
pub fn parse_listed_images(output: &str, runtime: &str) -> (r: Vec<String>)
    ensures
        texts(r@) == (if runtime@ == "docker"@ {
            listed_refs(lines_of(output@), true)
        } else if runtime@ == "containerd"@ {
            listed_refs(lines_of(output@), false)
        } else {
            Seq::empty()
        }),
{
    let docker = same(runtime, "docker");
    let mut out = no_texts();
    if !docker && !same(runtime, "containerd") {
        return out;
    }
    let ls = lines(output);
    let ghost all = lines_of(output@);
    let mut i: usize = 0;
    assert(texts(out@) =~= listed_refs(all.take(0), docker));
    while i < ls.len()
        invariant
            i <= ls@.len(),
            texts(ls@) == all,
            texts(out@) == listed_refs(all.take(i as int), docker),
        decreases ls@.len() - i,
    {
        assert(all.take(i + 1).drop_last() =~= all.take(i as int));
        assert(all[i as int] == ls@[i as int]@);
        if let Some(x) = line_image(ls[i].as_str(), docker) {
            push_text(&mut out, x.as_str());
        }
        i += 1;
    }
    assert(all.take(i as int) =~= all);
    out
}

/// A command that ran reported success, or nothing at all.
pub open spec fn run_succeeded(status: Option<Option<&str>>) -> bool {
    match status {
        Some(Some(s)) => s@ == "Success"@,
        _ => true,
    }
}

/// Whether a command that ran reported success, or nothing at all.
pub fn was_success(status: Option<Option<&str>>) -> (r: bool)
    ensures
        r == run_succeeded(status),
{
    match status {
        Some(Some(s)) => same(s, "Success"),
        _ => true,
    }
}

/// What to run on a node: in which pod, made from which image, and with which
/// command.
#[derive(Clone, Debug)]
pub struct NodeRun {
    pub runtime: String,
    pub argv: Vec<String>,
    pub pod_name: String,
    pub pod_image: String,
}

/// Decides how to list the images of a node whose runtime version is `version`.
pub fn begin_list(version: &str, node: &str, configured: Option<&str>) -> (r: AppResult<NodeRun>)
    ensures
        match r {
            Ok(p) => {
                &&& runtime_of(version@) == Some(p.runtime@)
                &&& list_words(p.runtime@) == Some(texts(p.argv@))
                &&& p.pod_name@ == "k7s-imgls-"@ + name_part(node@) + "-0"@
                &&& p.pod_image@ == chosen_image(configured)
            },
            Err(e) => runtime_of(version@) is None && e.is_other(unsupported_text(version@)),
        },
{
    match detect_runtime(version) {
        Err(e) => Err(e),
        Ok(runtime) => match list_command(runtime.as_str()) {
            Err(e) => Err(e),
            Ok(argv) => {
                let part = sanitize_for_name(node);
                Ok(
                    NodeRun {
                        runtime,
                        argv,
                        pod_name: cat3("k7s-imgls-", part.as_str(), "-0"),
                        pod_image: shell_image(configured),
                    },
                )
            },
        },
    }
}

/// Reads the end of a listing: the images it names, or why there are none.
pub fn finish_list(
    runtime: &str,
    status: Option<Option<&str>>,
    message: &str,
    output: &str,
) -> (r: AppResult<Vec<String>>)
    ensures
        match r {
            Ok(images) => run_succeeded(status) && texts(images@) == (if runtime@ == "docker"@ {
                listed_refs(lines_of(output@), true)
            } else if runtime@ == "containerd"@ {
                listed_refs(lines_of(output@), false)
            } else {
                Seq::empty()
            }),
            Err(e) => !run_succeeded(status) && e.is_other(
                "list images failed: "@ + message@ + " (output: "@ + output@ + ")"@,
            ),
        },
{
    if was_success(status) {
        Ok(parse_listed_images(output, runtime))
    } else {
        let m = cat5("list images failed: ", message, " (output: ", output, ")");
        Err(other(m.as_str()))
    }
}

// ---------------------------------------------------------------------------
// Exporting
// ---------------------------------------------------------------------------

/// How an export begins: with a plan, or with a result where the runtime of the
/// node cannot export.
#[derive(Clone, Debug)]
pub enum ExportStart {
    Refused(ExportResult),
    Planned(NodeRun),
}

/// A failed export.
pub open spec fn is_failed_export(
    r: ExportResult,
    runtime: Seq<char>,
    path: Seq<char>,
    reason: Seq<char>,
) -> bool {
    r.runtime@ == runtime && r.output@.len() == 0 && r.images@.len() == 0 && r.saved_path@ == path
        && opt_text(r.error) == Some(reason)
}

fn failed_export(runtime: &str, path: &str, reason: String) -> (r: ExportResult)
    ensures
        is_failed_export(r, runtime@, path@, reason@),
{
    ExportResult {
        runtime: runtime.to_owned(),
        output: String::new(),
        images: Vec::new(),
        saved_path: path.to_owned(),
        error: Some(reason),
    }
}

/// The name of the pod for the export number `seq` on `node`.
pub open spec fn export_pod(node: Seq<char>, seq: u64) -> Seq<char> {
    "k7s-imgexp-"@ + name_part(node) + "-"@ + dec(seq as nat)
}

/// Decides how to export `image_ref` from a node whose runtime version is
/// `version`. The save path has been checked by the time the version is known.
pub fn begin_export(
    version: &str,
    node: &str,
    image_ref: &str,
    save_path: &str,
    seq: u64,
    configured: Option<&str>,
) -> (r: AppResult<ExportStart>)
    ensures
        match r {
            Ok(ExportStart::Refused(x)) => runtime_of(version@) is None && is_failed_export(
                x,
                Seq::empty(),
                save_path@,
                unsupported_text(version@),
            ),
            Ok(ExportStart::Planned(p)) => {
                &&& is_image_ref(image_ref@)
                &&& runtime_of(version@) == Some(p.runtime@)
                &&& export_words(p.runtime@, image_ref@) == Some(texts(p.argv@))
                &&& p.pod_name@ == export_pod(node@, seq)
                &&& p.pod_image@ == chosen_image(configured)
            },
            Err(e) => runtime_of(version@) is Some && !is_image_ref(image_ref@) && e.is_other(
                bad_ref_text(image_ref@),
            ),
        },
{
    match detect_runtime(version) {
        Err(e) => {
            let reason = e.message();
            let x = failed_export("", save_path, reason);
            assert(x.runtime@ =~= Seq::<char>::empty()) by {
                reveal_strlit("");
            }
            Ok(ExportStart::Refused(x))
        },
        Ok(runtime) => {
            match export_command(runtime.as_str(), image_ref) {
                Err(e) => Err(e),
                Ok(argv) => {
                    let part = sanitize_for_name(node);
                    let number = dec_u64(seq);
                    Ok(
                        ExportStart::Planned(
                            NodeRun {
                                runtime,
                                argv,
                                pod_name: cat4(
                                    "k7s-imgexp-",
                                    part.as_str(),
                                    "-",
                                    number.as_str(),
                                ),
                                pod_image: shell_image(configured),
                            },
                        ),
                    )
                },
            }
        },
    }
}

/// Reads the end of an export command that wrote `bytes` bytes: what to report,
/// or why it failed (the partial file is then to be removed).
pub fn export_outcome(
    status: Option<Option<&str>>,
    message: &str,
    bytes: u64,
    save_path: &str,
) -> (r: AppResult<String>)
    ensures
        match r {
            Ok(s) => run_succeeded(status) && s@ == "exported "@ + dec(bytes as nat)
                + " bytes to "@ + save_path@,
            Err(e) => !run_succeeded(status) && e.is_other("image export failed: "@ + message@),
        },
{
    if was_success(status) {
        let n = dec_u64(bytes);
        Ok(cat4("exported ", n.as_str(), " bytes to ", save_path))
    } else {
        let m = cat2("image export failed: ", message);
        Err(other(m.as_str()))
    }
}

/// The result of an export that was run.
pub fn finish_export(
    runtime: &str,
    image_ref: &str,
    save_path: &str,
    outcome: AppResult<String>,
) -> (r: ExportResult)
    ensures
        match outcome {
            Ok(output) => {
                &&& r.runtime@ == runtime@
                &&& r.output@ == output@
                &&& texts(r.images@) == seq![image_ref@]
                &&& r.saved_path@ == save_path@
                &&& r.error is None
            },
            Err(e) => is_failed_export(r, runtime@, save_path@, e.text()),
        },
{
    match outcome {
        Ok(output) => {
            let mut images = no_texts();
            push_text(&mut images, image_ref);
            assert(texts(images@) =~= seq![image_ref@]);
            ExportResult {
                runtime: runtime.to_owned(),
                output,
                images,
                saved_path: save_path.to_owned(),
                error: None,
            }
        },
        Err(e) => failed_export(runtime, save_path, e.message()),
    }
}

// ---------------------------------------------------------------------------
// Laws
// ---------------------------------------------------------------------------

/// A character that a shell gives a meaning of its own.
pub open spec fn is_shell_char(c: char) -> bool {
    c == ';' || c == '&' || c == '|' || c == '$' || c == '`' || c == '(' || c == ')' || c == '<' || c
        == '>' || c == '"' || c == '\'' || c == '\\' || c == '*' || c == '?' || c == '!' || c == '#'
        || c == ' ' || c == '\t' || c == '\n'
}

/// An accepted reference holds nothing that a shell would act on.
pub proof fn law_references_hold_no_shell_characters(image_ref: Seq<char>, c: char)
    requires
        is_image_ref(image_ref),
        is_shell_char(c),
    ensures
        !image_ref.contains(c),
{
    if image_ref.contains(c) {
        let i = choose|i: int| 0 <= i < image_ref.len() && image_ref[i] == c;
        assert(is_ref_char(image_ref[i]));
    }
}

/// The reference is the last argument and changes no other, and no shell is among
/// the others.
pub proof fn law_reference_is_one_argument(
    runtime: Seq<char>,
    image_ref: Seq<char>,
    other_ref: Seq<char>,
)
    requires
        export_words(runtime, image_ref) is Some,
    ensures
        export_words(runtime, other_ref) is Some,
        export_words(runtime, image_ref)->0.last() == image_ref,
        export_words(runtime, image_ref)->0.drop_last() == export_words(
            runtime,
            other_ref,
        )->0.drop_last(),
        !export_words(runtime, image_ref)->0.drop_last().contains("/bin/sh"@),
        !export_words(runtime, image_ref)->0.drop_last().contains("-c"@),
{
    let w = export_words(runtime, image_ref)->0;
    let v = export_words(runtime, other_ref)->0;
    assert(w.drop_last() =~= v.drop_last());
    reveal_strlit("/bin/sh");
    reveal_strlit("-c");
    reveal_strlit("nsenter");
    reveal_strlit("--target");
    reveal_strlit("1");
    reveal_strlit("--mount");
    reveal_strlit("--uts");
    reveal_strlit("--ipc");
    reveal_strlit("--net");
    reveal_strlit("--pid");
    reveal_strlit("--");
    reveal_strlit("ctr");
    reveal_strlit("--address");
    reveal_strlit("/run/containerd/containerd.sock");
    reveal_strlit("images");
    reveal_strlit("export");
    reveal_strlit("--output");
    reveal_strlit("-");
    reveal_strlit("docker");
    reveal_strlit("save");
    assert forall|i: int| 0 <= i < w.len() - 1 implies w[i] != "/bin/sh"@ && w[i] != "-c"@ by {
        assert("/bin/sh"@[0] == '/' && "/bin/sh"@.len() == 7);
        assert("-c"@[1] == 'c' && "-c"@.len() == 2);
    }
}

/// Two exports with different numbers have pods with different names, whatever their
/// nodes are called.
pub proof fn law_export_pods_differ(node: Seq<char>, seq: u64, node2: Seq<char>, seq2: u64)
    requires
        seq != seq2,
    ensures
        export_pod(node, seq) != export_pod(node2, seq2),
{
    lemma_numbered_differ(
        "k7s-imgexp-"@ + name_part(node),
        seq as nat,
        "k7s-imgexp-"@ + name_part(node2),
        seq2 as nat,
    );
}

/// A reference is accepted exactly where it is not empty and each of its characters is a
/// letter, a digit or one of `.`, `-`, `_`, `:`, `/` and `@`.
pub proof fn law_which_references_are_accepted(image_ref: &str, r: AppResult<()>)
    requires
        call_ensures(validate_image_ref, (image_ref,), r),
    ensures
        r is Ok <==> image_ref@.len() > 0 && (forall|i: int|
            0 <= i < image_ref@.len() ==> is_alnum(#[trigger] image_ref@[i]) || image_ref@[i] == '.'
                || image_ref@[i] == '-' || image_ref@[i] == '_' || image_ref@[i] == ':'
                || image_ref@[i] == '/' || image_ref@[i] == '@'),
{
}

/// A file is saved only at an absolute path without a part of two dots, and not below a
/// directory of the system.
pub proof fn law_where_a_file_may_be_saved(save_path: &str, dir: Seq<char>, rest: Seq<char>, r: AppResult<
    (),
>)
    requires
        call_ensures(validate_save_path, (save_path,), r),
    ensures
        r is Ok ==> save_path@.len() > 0 && save_path@[0] == '/' && !goes_up(save_path@),
        save_path@ == seq!['/'] + dir + rest && (rest.len() == 0 || rest[0] == '/') && (dir == "etc"@
            || dir == "usr"@ || dir == "bin"@ || dir == "sbin"@ || dir == "boot"@ || dir == "lib"@
            || dir == "lib64"@ || dir == "proc"@ || dir == "sys"@ || dir == "dev"@) ==> r is Err,
        save_path@ == seq!['/'] + dir + rest && rest.len() > 0 && rest[0] == '/' && dir.len() > 0
            && !dir.contains('/') && dir != "."@ && !is_system_dir(dir) && !goes_up(save_path@)
            ==> r is Ok,
{
    if save_path@ == seq!['/'] + dir + rest && (rest.len() == 0 || rest[0] == '/') && (
    is_system_dir(dir) || (dir.len() > 0 && !dir.contains('/') && dir != "."@)) {
        lemma_system_dirs(dir);
        lemma_first_segment(save_path@, dir, rest);
    }
}

proof fn lemma_system_dirs(dir: Seq<char>)
    ensures
        is_system_dir(dir) ==> dir.len() > 0 && !dir.contains('/') && dir != "."@,
{
    reveal_strlit("etc");
    reveal_strlit("usr");
    reveal_strlit("bin");
    reveal_strlit("sbin");
    reveal_strlit("boot");
    reveal_strlit("lib");
    reveal_strlit("lib64");
    reveal_strlit("proc");
    reveal_strlit("sys");
    reveal_strlit("dev");
    reveal_strlit(".");
    assert("."@.len() == 1);
    if is_system_dir(dir) {
        assert(dir.len() >= 3);
        assert forall|i: int| 0 <= i < dir.len() implies dir[i] != '/' by {}
    }
}

proof fn lemma_pieces_before(s: Seq<char>, rest: Seq<char>)
    requires
        rest.len() == 0 || rest[0] == '/',
    ensures
        pieces(s + rest, '/').len() >= pieces(s, '/').len(),
        rest.len() > 0 ==> pieces(s + rest, '/').len() > pieces(s, '/').len(),
        pieces(s + rest, '/').take(pieces(s, '/').len() as int) == pieces(s, '/'),
    decreases rest.len(),
{
    let all = s + rest;
    let n = pieces(s, '/').len() as int;
    if rest.len() == 0 {
        assert(all =~= s);
        assert(pieces(s, '/').take(n) =~= pieces(s, '/'));
    } else {
        let before = pieces(all.drop_last(), '/');
        assert(all.drop_last() =~= s + rest.drop_last());
        lemma_pieces_before(s, rest.drop_last());
        lemma_pieces_nonempty(all.drop_last(), '/');
        if rest.len() == 1 {
            assert(all.last() == '/');
        }
        assert(pieces(all, '/').take(n) =~= before.take(n));
    }
}

proof fn lemma_first_segment(path: Seq<char>, dir: Seq<char>, rest: Seq<char>)
    requires
        path == seq!['/'] + dir + rest,
        rest.len() == 0 || rest[0] == '/',
        dir.len() > 0,
        !dir.contains('/'),
        dir != "."@,
    ensures
        first_segment(pieces(path, '/'), 0) == dir,
{
    let front = Seq::empty() + seq!['/'] + dir;
    let ps = pieces(path, '/');
    lemma_last_piece(Seq::empty(), dir, '/');
    assert(path =~= front + rest);
    lemma_pieces_before(front, rest);
    assert(ps.take(2)[0].len() == 0 && ps.take(2)[1] == dir);
    reveal_with_fuel(first_segment, 3);
}

/// Every command enters the namespaces of the host's first process and runs the runtime's own
/// command there, for the image asked for; a runtime that is not known is refused.
pub proof fn law_an_export_runs_on_the_host(
    runtime: &str,
    image_ref: &str,
    r: AppResult<Vec<String>>,
    checked: AppResult<()>,
)
    requires
        call_ensures(export_command, (runtime, image_ref), r),
        call_ensures(validate_image_ref, (image_ref,), checked),
    ensures
        r is Ok <==> checked is Ok && (runtime@ == "containerd"@ || runtime@ == "docker"@),
        r is Ok ==> texts(r->Ok_0@).take(9) == seq![
            "nsenter"@,
            "--target"@,
            "1"@,
            "--mount"@,
            "--uts"@,
            "--ipc"@,
            "--net"@,
            "--pid"@,
            "--"@,
        ],
        r is Ok && runtime@ == "containerd"@ ==> texts(r->Ok_0@).skip(9) == seq![
            "ctr"@,
            "--address"@,
            "/run/containerd/containerd.sock"@,
            "images"@,
            "export"@,
            "--output"@,
            "-"@,
            image_ref@,
        ],
        r is Ok && runtime@ != "containerd"@ ==> texts(r->Ok_0@).skip(9) == seq![
            "docker"@,
            "save"@,
            image_ref@,
        ],
{
}

/// Images are listed by the runtime's own command on the host.
pub proof fn law_a_listing_runs_on_the_host(runtime: &str, r: AppResult<Vec<String>>)
    requires
        call_ensures(list_command, (runtime,), r),
    ensures
        r is Ok <==> runtime@ == "containerd"@ || runtime@ == "docker"@,
        r is Ok ==> texts(r->Ok_0@).take(9) == seq![
            "nsenter"@,
            "--target"@,
            "1"@,
            "--mount"@,
            "--uts"@,
            "--ipc"@,
            "--net"@,
            "--pid"@,
            "--"@,
        ],
        r is Ok && runtime@ == "containerd"@ ==> texts(r->Ok_0@).skip(9) == seq![
            "ctr"@,
            "--address"@,
            "/run/containerd/containerd.sock"@,
            "images"@,
            "list"@,
            "-q"@,
        ],
        r is Ok && runtime@ != "containerd"@ ==> texts(r->Ok_0@).skip(9) == seq![
            "docker"@,
            "images"@,
            "--format"@,
            "json"@,
        ],
{
}

/// An entry of docker's listing names its repository and its tag with a colon between them;
/// one without either names nothing.
pub proof fn law_a_docker_entry_names_its_image(j: Json, r: Option<String>)
    requires
        call_ensures(docker_image, (&j,), r),
    ensures
        (member(j, "Repository"@) matches Some(Json::Str(repo)) && member(j, "Tag"@) matches Some(
            Json::Str(tag),
        ) && repo@ != "<none>"@ && tag@ != "<none>"@) ==> r is Some,
        r is Some ==> (member(j, "Repository"@) matches Some(Json::Str(repo)) && member(j, "Tag"@)
            matches Some(Json::Str(tag)) && repo@ != "<none>"@ && tag@ != "<none>"@ && r->0@
            == repo@ + ":"@ + tag@),
{
}

proof fn lemma_listed_lines(ls: Seq<Seq<char>>)
    ensures
        listed_refs(ls, false) == ls.map_values(|l: Seq<char>| trimmed(l)).filter(
            |l: Seq<char>| l.len() > 0,
        ),
    decreases ls.len(),
{
    reveal(Seq::filter);
    let f = |l: Seq<char>| trimmed(l);
    if ls.len() > 0 {
        lemma_listed_lines(ls.drop_last());
        assert(ls.map_values(f).drop_last() =~= ls.drop_last().map_values(f));
        assert(ls.map_values(f).last() == trimmed(ls.last()));
    } else {
        assert(ls.map_values(f) =~= Seq::empty());
    }
}

/// Every line of containerd's listing that is not blank names an image, and no other runtime
/// is read.
pub proof fn law_every_line_names_an_image(output: &str, runtime: &str, r: Vec<String>)
    requires
        call_ensures(parse_listed_images, (output, runtime), r),
    ensures
        runtime@ == "containerd"@ ==> texts(r@) == lines_of(output@).map_values(
            |l: Seq<char>| trimmed(l),
        ).filter(|l: Seq<char>| l.len() > 0),
        runtime@ != "containerd"@ && runtime@ != "docker"@ ==> r@.len() == 0,
{
    lemma_listed_lines(lines_of(output@));
    reveal_strlit("containerd");
    reveal_strlit("docker");
    assert("containerd"@.len() == 10 && "docker"@.len() == 6);
    assert(texts(r@).len() == r@.len());
}

proof fn lemma_listed_docker(ls: Seq<Seq<char>>, x: Seq<char>)
    ensures
        listed_refs(ls, true).contains(x) <==> exists|i: int|
            #![trigger ls[i]]
            0 <= i < ls.len() && listed_ref(ls[i], true) == Some(x),
    decreases ls.len(),
{
    if ls.len() > 0 {
        let t = ls.drop_last();
        let front = listed_refs(t, true);
        let all = listed_refs(ls, true);
        lemma_listed_docker(t, x);
        if all.contains(x) {
            let k = choose|k: int| 0 <= k < all.len() && all[k] == x;
            if k < front.len() {
                assert(front[k] == x);
                let i = choose|i: int|
                    #![trigger t[i]]
                    0 <= i < t.len() && listed_ref(t[i], true) == Some(x);
                assert(ls[i] == t[i]);
            } else {
                assert(ls[ls.len() - 1] == ls.last());
            }
        }
        if exists|i: int| #![trigger ls[i]] 0 <= i < ls.len() && listed_ref(ls[i], true) == Some(x) {
            let i = choose|i: int|
                #![trigger ls[i]]
                0 <= i < ls.len() && listed_ref(ls[i], true) == Some(x);
            if i < t.len() {
                assert(t[i] == ls[i]);
                let k = choose|k: int| 0 <= k < front.len() && front[k] == x;
                assert(all[k] == x);
            } else {
                assert(all[all.len() - 1] == x);
            }
        }
    }
}

/// Every line of docker's listing names what its JSON object names.
pub proof fn law_every_object_names_an_image(
    output: &str,
    r: Vec<String>,
    docker: &str,
    x: Seq<char>,
)
    requires
        docker@ == "docker"@,
        call_ensures(parse_listed_images, (output, docker), r),
    ensures
        texts(r@).contains(x) <==> exists|i: int|
            #![trigger lines_of(output@)[i]]
            0 <= i < lines_of(output@).len() && json_text(trimmed(lines_of(output@)[i])) is Ok
                && ({
                let j = json_text(trimmed(lines_of(output@)[i]))->Ok_0;
                member(j, "Repository"@) matches Some(Json::Str(repo)) && member(j, "Tag"@)
                    matches Some(Json::Str(tag)) && repo@ != "<none>"@ && tag@ != "<none>"@ && x
                    == repo@ + ":"@ + tag@
            }),
{
    let ls = lines_of(output@);
    lemma_listed_docker(ls, x);
    if texts(r@).contains(x) {
        let i = choose|i: int|
            #![trigger ls[i]]
            0 <= i < ls.len() && listed_ref(ls[i], true) == Some(x);
        assert(json_text(trimmed(ls[i])) is Ok);
    }
    if exists|i: int|
        #![trigger ls[i]]
        0 <= i < ls.len() && json_text(trimmed(ls[i])) is Ok && ({
            let j = json_text(trimmed(ls[i]))->Ok_0;
            member(j, "Repository"@) matches Some(Json::Str(repo)) && member(j, "Tag"@) matches Some(
                Json::Str(tag),
            ) && repo@ != "<none>"@ && tag@ != "<none>"@ && x == repo@ + ":"@ + tag@
        }) {
        let i = choose|i: int|
            #![trigger ls[i]]
            0 <= i < ls.len() && json_text(trimmed(ls[i])) is Ok && ({
                let j = json_text(trimmed(ls[i]))->Ok_0;
                member(j, "Repository"@) matches Some(Json::Str(repo)) && member(j, "Tag"@)
                    matches Some(Json::Str(tag)) && repo@ != "<none>"@ && tag@ != "<none>"@ && x
                    == repo@ + ":"@ + tag@
            });
        assert(listed_ref(ls[i], true) == Some(x));
    }
}

/// A command that reported anything but success has failed.
pub proof fn law_what_counts_as_success(status: Option<Option<&str>>, r: bool)
    requires
        call_ensures(was_success, (status,), r),
    ensures
        r <==> !(status is Some && status->0 is Some && status->0->0@ != "Success"@),
{
}

/// An export runs the command of the node's runtime, in a pod of its own number.
pub proof fn law_an_export_is_of_the_image_asked_for(
    version: &str,
    rest: Seq<char>,
    node: &str,
    image_ref: &str,
    save_path: &str,
    seq: u64,
    configured: Option<&str>,
    r: AppResult<ExportStart>,
    part: String,
    command: AppResult<Vec<String>>,
    runtime: &str,
)
    requires
        call_ensures(begin_export, (version, node, image_ref, save_path, seq, configured), r),
        call_ensures(sanitize_for_name, (node,), part),
        call_ensures(export_command, (runtime, image_ref), command),
        trimmed(version@) == runtime@ + "://"@ + rest,
        runtime@ == "containerd"@ || runtime@ == "docker"@,
    ensures
        command is Ok ==> (r matches Ok(ExportStart::Planned(p)) && p.runtime@ == runtime@ && texts(
            p.argv@,
        ) == texts(command->Ok_0@) && p.pod_name@ == "k7s-imgexp-"@ + part@ + "-"@ + dec(
            seq as nat,
        )),
        command is Err ==> r is Err,
{
    lemma_runtime_of(version@, runtime@, rest);
}

/// A result says what was exported where, or why nothing was.
pub proof fn law_an_export_is_reported(
    runtime: &str,
    image_ref: &str,
    save_path: &str,
    outcome: AppResult<String>,
    r: ExportResult,
)
    requires
        call_ensures(finish_export, (runtime, image_ref, save_path, outcome), r),
    ensures
        r.runtime@ == runtime@,
        r.saved_path@ == save_path@,
        outcome is Ok <==> r.error is None,
        outcome is Ok ==> r.output@ == outcome->Ok_0@ && r.images@.len() == 1 && r.images@[0]@
            == image_ref@,
        outcome is Err ==> r.error->0@ == outcome->Err_0.text() && r.images@.len() == 0,
{
    assert(texts(r.images@).len() == r.images@.len());
    if outcome is Ok {
        assert(texts(r.images@)[0] == r.images@[0]@);
    }
}

/// The images of a node are listed by its own runtime, in a pod of their own, and read from
/// what that printed where it succeeded.
pub proof fn law_images_of_a_node_are_listed(
    version: &str,
    rest: Seq<char>,
    runtime: &str,
    node: &str,
    configured: Option<&str>,
    r: AppResult<NodeRun>,
    part: String,
    command: AppResult<Vec<String>>,
    status: Option<Option<&str>>,
    message: &str,
    output: &str,
    finished: AppResult<Vec<String>>,
    images: Vec<String>,
    success: bool,
)
    requires
        call_ensures(begin_list, (version, node, configured), r),
        call_ensures(sanitize_for_name, (node,), part),
        call_ensures(list_command, (runtime,), command),
        trimmed(version@) == runtime@ + "://"@ + rest,
        runtime@ == "containerd"@ || runtime@ == "docker"@,
        call_ensures(finish_list, (runtime, status, message, output), finished),
        call_ensures(parse_listed_images, (output, runtime), images),
        call_ensures(was_success, (status,), success),
    ensures
        r matches Ok(p) && p.runtime@ == runtime@ && texts(p.argv@) == texts(command->Ok_0@)
            && p.pod_name@ == "k7s-imgls-"@ + part@ + "-0"@,
        success ==> (finished matches Ok(v) && texts(v@) == texts(images@)),
        !success ==> finished is Err,
{
    lemma_runtime_of(version@, runtime@, rest);
}

/// An export that succeeded says how much was written where.
pub proof fn law_export_says_what_was_written(
    status: Option<Option<&str>>,
    message: &str,
    bytes: u64,
    path: &str,
    r: AppResult<String>,
    success: bool,
)
    requires
        call_ensures(export_outcome, (status, message, bytes, path), r),
        call_ensures(was_success, (status,), success),
    ensures
        success ==> (r matches Ok(s) && s@ == "exported "@ + dec(bytes as nat) + " bytes to "@
            + path@),
        !success ==> (r matches Err(e) && e.is_other("image export failed: "@ + message@)),
{
}

} // verus!
