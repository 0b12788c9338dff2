//! Loading a `.tar` image archive into the container runtime of a node.
//!
//! There is no Kubernetes API for this, so a privileged pod on the node enters
//! the namespaces of PID 1 and pipes the archive into the runtime's own load
//! command. What is decided before and after that stands here.
use crate::error::{other, AppResult};
use crate::image::export::{
    export_words, list_words, nsenter_prefix, nsenter_words, run_succeeded, was_success,
};
use crate::nodeshell::{chosen_image, shell_image};
use crate::lists::{distinct, lemma_distinct};
use crate::text::{
    ascii_lower, cat3, cat4, cat5, contains, contains_char, dashed, dec, dec_u64, has_part,
    has_prefix, is_alnum, lemma_numbered_differ, lemma_trimmed_again, lemma_without_end,
    lemma_without_start, lines, lines_of, lower_char, no_texts, opt_text, push_new, push_text,
    starts_with, strip_prefix, texts, to_ascii_lower, to_dashed, trim, trim_end_char,
    trim_start_char, trimmed, without_end, without_start,
};
use vstd::prelude::*;

verus! {

/// Result of an image import: what ran, what the runtime said, and the image
/// references found in what it said.
#[derive(Clone, Debug)]
pub struct ImportResult {
    /// Runtime family: "containerd" or "docker".
    pub runtime: String,
    /// What the load command printed.
    pub output: String,
    /// Image references found in `output` (e.g. "nginx:1.25").
    pub images: Vec<String>,
    /// `None` on success; the reason on failure.
    pub error: Option<String>,
}

// ---------------------------------------------------------------------------
// The runtime
// ---------------------------------------------------------------------------

/// The runtime family that a `containerRuntimeVersion` names.
pub open spec fn runtime_of(version: Seq<char>) -> Option<Seq<char>> {
    let v = trimmed(version);
    if has_prefix(v, "containerd://"@) {
        Some("containerd"@)
    } else if has_prefix(v, "docker://"@) {
        Some("docker"@)
    } else {
        None
    }
}

/// The error for a runtime that cannot load archives.
pub open spec fn unsupported_text(version: Seq<char>) -> Seq<char> {
    "unsupported container runtime '"@ + trimmed(version)
        + "' — image import supports containerd and docker"@
}

/// Detects the runtime family from `containerRuntimeVersion`, which on a real
/// node looks like `containerd://1.7.22` or `docker://20.10.24`.
pub fn detect_runtime(version: &str) -> (r: AppResult<String>)
    ensures
        match r {
            Ok(s) => runtime_of(version@) == Some(s@),
            Err(e) => runtime_of(version@) is None && e.is_other(unsupported_text(version@)),
        },
{
    let v = trim(version);
    if starts_with(v, "containerd://") {
        return Ok("containerd".to_owned());
    }
    if starts_with(v, "docker://") {
        return Ok("docker".to_owned());
    }
    let m = cat3(
        "unsupported container runtime '",
        v,
        "' — image import supports containerd and docker",
    );
    Err(other(m.as_str()))
}

/// The shell command that loads an archive from its standard input.
pub open spec fn load_shell(runtime: Seq<char>) -> Option<Seq<char>> {
    if runtime == "containerd"@ {
        Some("ctr --address /run/containerd/containerd.sock images import --no-unpack -"@)
    } else if runtime == "docker"@ {
        Some("docker load"@)
    } else {
        None
    }
}

/// The argument list that enters the host and runs the load command there.
pub fn load_command(runtime: &str) -> (r: AppResult<Vec<String>>)
    ensures
        match r {
            Ok(argv) => load_shell(runtime@) is Some && texts(argv@) == nsenter_words() + seq![
                "/bin/sh"@,
                "-c"@,
                load_shell(runtime@)->0,
            ],
            Err(e) => load_shell(runtime@) is None && e.is_other(
                "unsupported runtime '"@ + runtime@ + "'"@,
            ),
        },
{
    let inner = if crate::text::same(runtime, "containerd") {
        "ctr --address /run/containerd/containerd.sock images import --no-unpack -"
    } else if crate::text::same(runtime, "docker") {
        "docker load"
    } else {
        let m = cat3("unsupported runtime '", runtime, "'");
        return Err(other(m.as_str()));
    };
    let mut argv = nsenter_prefix();
    push_text(&mut argv, "/bin/sh");
    push_text(&mut argv, "-c");
    push_text(&mut argv, inner);
    assert(texts(argv@) =~= nsenter_words() + seq!["/bin/sh"@, "-c"@, inner@]);
    Ok(argv)
}

// ---------------------------------------------------------------------------
// What the load command printed
// ---------------------------------------------------------------------------

/// A line looks like an image reference and not like progress.
pub open spec fn looks_like_ref(l: Seq<char>) -> bool {
    &&& l.contains(':') || has_part(l, "@sha256:"@)
    &&& !l.contains('%')
    &&& !has_prefix(l, "unpacking"@)
    &&& !has_prefix(l, "elapsed"@)
    &&& !has_prefix(l, "importing"@)
    &&& !has_prefix(l, "done"@)
}

/// What a line says beyond a prefix, if that is anything.
pub open spec fn tail_after(l: Seq<char>, prefix: Seq<char>) -> Option<Seq<char>> {
    let t = trimmed(l.skip(prefix.len() as int));
    if t.len() > 0 {
        Some(t)
    } else {
        None
    }
}

/// The image reference that one line of output names.
pub open spec fn loaded_ref(line: Seq<char>) -> Option<Seq<char>> {
    let l = trimmed(line);
    if has_prefix(l, "Loaded image:"@) {
        tail_after(l, "Loaded image:"@)
    } else if has_prefix(l, "Loaded image ID:"@) {
        tail_after(l, "Loaded image ID:"@)
    } else if looks_like_ref(l) && l.len() > 0 {
        Some(l)
    } else {
        None
    }
}

/// The image references that some lines name, in order.
pub open spec fn loaded_refs(ls: Seq<Seq<char>>) -> Seq<Seq<char>>
    decreases ls.len(),
{
    if ls.len() == 0 {
        Seq::empty()
    } else {
        match loaded_ref(ls.last()) {
            Some(x) => loaded_refs(ls.drop_last()).push(x),
            None => loaded_refs(ls.drop_last()),
        }
    }
}

fn line_ref(line: &str) -> (r: Option<String>)
    ensures
        opt_text(r) == loaded_ref(line@),
{
    let l = trim(line);
    if let Some(rest) = strip_prefix(l, "Loaded image:") {
        let img = trim(rest);
        if !img.is_empty() {
            return Some(img.to_owned());
        }
        return None;
    }
    if let Some(rest) = strip_prefix(l, "Loaded image ID:") {
        let img = trim(rest);
        if !img.is_empty() {
            return Some(img.to_owned());
        }
        return None;
    }
    let looks = (contains_char(l, ':') || contains(l, "@sha256:")) && !contains_char(l, '%')
        && !starts_with(l, "unpacking") && !starts_with(l, "elapsed") && !starts_with(
        l,
        "importing",
    ) && !starts_with(l, "done");
    if looks && !l.is_empty() {
        Some(l.to_owned())
    } else {
        None
    }
}

/// The image references in a load command's output: the tails of docker's
/// `Loaded image:` and `Loaded image ID:` lines, and containerd's bare
/// references without its progress lines. One that comes again is listed once,
/// where it came first.
pub fn parse_loaded_images(output: &str) -> (r: Vec<String>)
    ensures
        texts(r@) == distinct(loaded_refs(lines_of(output@))),
{
    let ls = lines(output);
    let ghost all = lines_of(output@);
    let mut out = no_texts();
    let mut i: usize = 0;
    assert(texts(out@) =~= distinct(loaded_refs(all.take(0))));
    while i < ls.len()
        invariant
            i <= ls@.len(),
            texts(ls@) == all,
            texts(out@) == distinct(loaded_refs(all.take(i as int))),
        decreases ls@.len() - i,
    {
        assert(all.take(i + 1).drop_last() =~= all.take(i as int));
        assert(all[i as int] == ls@[i as int]@);
        if let Some(x) = line_ref(ls[i].as_str()) {
            proof {
                let before = loaded_refs(all.take(i as int));
                assert(before.push(x@).drop_last() =~= before);
            }
            push_new(&mut out, x.as_str());
        }
        i += 1;
    }
    assert(all.take(i as int) =~= all);
    out
}

// ---------------------------------------------------------------------------
// The import as a whole
// ---------------------------------------------------------------------------

/// A node name as part of a pod name.
pub open spec fn name_part(node: Seq<char>) -> Seq<char> {
    ascii_lower(without_end(without_start(dashed(node), '-'), '-'))
}

/// Reduces a node name to what may stand in a pod name: dashes for everything
/// that is no letter or digit, none at the ends, in lower case.
pub fn sanitize_for_name(node: &str) -> (r: String)
    ensures
        r@ == name_part(node@),
{
    let d = to_dashed(node);
    to_ascii_lower(trim_end_char(trim_start_char(d.as_str(), '-'), '-'))
}

/// What to run to import an image: in which pod, made from which image, and
/// with which command.
#[derive(Clone, Debug)]
pub struct ImportPlan {
    pub runtime: String,
    pub argv: Vec<String>,
    pub pod_name: String,
    pub pod_image: String,
}

/// How an import begins: with a plan, or with a result where the runtime of the
/// node cannot load archives.
#[derive(Clone, Debug)]
pub enum ImportStart {
    Refused(ImportResult),
    Planned(ImportPlan),
}

/// The name of the pod for the import number `seq` on `node`.
pub open spec fn import_pod(node: Seq<char>, seq: u64) -> Seq<char> {
    "k7s-imgimp-"@ + name_part(node) + "-"@ + dec(seq as nat)
}

/// A failed import.
pub open spec fn is_failure(r: ImportResult, runtime: Seq<char>, reason: Seq<char>) -> bool {
    r.runtime@ == runtime && r.output@.len() == 0 && r.images@.len() == 0 && opt_text(r.error)
        == Some(reason)
}

fn failure(runtime: &str, reason: String) -> (r: ImportResult)
    ensures
        is_failure(r, runtime@, reason@),
{
    ImportResult {
        runtime: runtime.to_owned(),
        output: String::new(),
        images: Vec::new(),
        error: Some(reason),
    }
}

/// Decides how to import onto a node whose runtime version is `version`.
/// `configured` is the configured image for debug pods, where there is one.
pub fn begin_import(version: &str, node: &str, seq: u64, configured: Option<&str>) -> (r: ImportStart)
    ensures
        match r {
            ImportStart::Refused(x) => runtime_of(version@) is None && is_failure(
                x,
                Seq::empty(),
                unsupported_text(version@),
            ),
            ImportStart::Planned(p) => {
                &&& runtime_of(version@) == Some(p.runtime@)
                &&& load_shell(p.runtime@) is Some
                &&& texts(p.argv@) == nsenter_words() + seq![
                    "/bin/sh"@,
                    "-c"@,
                    load_shell(p.runtime@)->0,
                ]
                &&& p.pod_name@ == import_pod(node@, seq)
                &&& p.pod_image@ == chosen_image(configured)
            },
        },
{
    match detect_runtime(version) {
        Err(e) => {
            let reason = e.message();
            let x = failure("", reason);
            assert(x.runtime@ =~= Seq::<char>::empty()) by {
                reveal_strlit("");
            }
            ImportStart::Refused(x)
        },
        Ok(runtime) => {
            match load_command(runtime.as_str()) {
                Err(e) => ImportStart::Refused(failure(runtime.as_str(), e.message())),
                Ok(argv) => {
                    let part = sanitize_for_name(node);
                    let number = dec_u64(seq);
                    ImportStart::Planned(
                        ImportPlan {
                            runtime,
                            argv,
                            pod_name: cat4("k7s-imgimp-", part.as_str(), "-", number.as_str()),
                            pod_image: shell_image(configured),
                        },
                    )
                },
            }
        },
    }
}

/// Reads the end of the load command: its exit status as the API server gave it
/// (`None` where it gave none), the status message in debug form, and what the
/// command printed.
pub fn load_outcome(status: Option<Option<&str>>, message: &str, output: &str) -> (r: AppResult<String>)
    ensures
        match r {
            Ok(s) => run_succeeded(status) && s@ == output@,
            Err(e) => !run_succeeded(status) && e.is_other(
                "image load failed: "@ + message@ + " (output: "@ + output@ + ")"@,
            ),
        },
{
    if was_success(status) {
        Ok(output.to_owned())
    } else {
        let m = cat5("image load failed: ", message, " (output: ", output, ")");
        Err(other(m.as_str()))
    }
}

/// The result of an import that was run: what was printed and loaded, or the
/// error that ended it.
pub fn finish_import(runtime: &str, outcome: AppResult<String>) -> (r: ImportResult)
    ensures
        match outcome {
            Ok(output) => {
                &&& r.runtime@ == runtime@
                &&& r.output@ == output@
                &&& texts(r.images@) == distinct(loaded_refs(lines_of(output@)))
                &&& r.error is None
            },
            Err(e) => is_failure(r, runtime@, e.text()),
        },
{
    match outcome {
        Ok(output) => {
            let images = parse_loaded_images(output.as_str());
            ImportResult { runtime: runtime.to_owned(), output, images, error: None }
        },
        Err(e) => failure(runtime, e.message()),
    }
}

// ---------------------------------------------------------------------------
// Laws
// ---------------------------------------------------------------------------

/// Two imports with different numbers have pods with different names, whatever their
/// nodes are called.
pub proof fn law_import_pods_differ(node: Seq<char>, seq: u64, node2: Seq<char>, seq2: u64)
    requires
        seq != seq2,
    ensures
        import_pod(node, seq) != import_pod(node2, seq2),
{
    lemma_numbered_differ(
        "k7s-imgimp-"@ + name_part(node),
        seq as nat,
        "k7s-imgimp-"@ + name_part(node2),
        seq2 as nat,
    );
}

/// A runtime that is detected can load archives and export images, so an import or an
/// export onto such a node is never refused for its runtime.
pub proof fn law_detected_runtimes_are_supported(version: Seq<char>, image_ref: Seq<char>)
    requires
        runtime_of(version) is Some,
    ensures
        load_shell(runtime_of(version)->0) is Some,
        export_words(runtime_of(version)->0, image_ref) is Some,
        list_words(runtime_of(version)->0) is Some,
{
}

pub proof fn lemma_runtime_of(version: Seq<char>, runtime: Seq<char>, rest: Seq<char>)
    requires
        trimmed(version) == runtime + "://"@ + rest,
        runtime == "containerd"@ || runtime == "docker"@,
    ensures
        runtime_of(version) == Some(runtime),
{
    reveal_strlit("containerd");
    reveal_strlit("docker");
    reveal_strlit("://");
    reveal_strlit("containerd://");
    reveal_strlit("docker://");
    assert("containerd"@ + "://"@ =~= "containerd://"@);
    assert("docker"@ + "://"@ =~= "docker://"@);
    let v = trimmed(version);
    assert("containerd://"@.len() == 13 && "docker://"@.len() == 9);
    if runtime == "containerd"@ {
        assert(v.take(13) =~= "containerd://"@);
    } else {
        assert(v.take(9) =~= "docker://"@);
        assert(v[0] == 'd');
        if has_prefix(v, "containerd://"@) {
            assert(v.take(13)[0] == 'c');
        }
    }
}

/// A runtime is known by what stands before `://` in its version: containerd or docker, and no
/// other.
pub proof fn law_which_runtimes_are_known(version: &str, rest: Seq<char>, r: AppResult<String>)
    requires
        call_ensures(detect_runtime, (version,), r),
    ensures
        trimmed(version@) == "containerd"@ + "://"@ + rest ==> r is Ok && r->Ok_0@ == "containerd"@,
        trimmed(version@) == "docker"@ + "://"@ + rest ==> r is Ok && r->Ok_0@ == "docker"@,
        r is Ok ==> (has_prefix(trimmed(version@), "containerd://"@) && r->Ok_0@ == "containerd"@)
            || (has_prefix(trimmed(version@), "docker://"@) && r->Ok_0@ == "docker"@),
        r matches Err(e) ==> e.is_other(
            "unsupported container runtime '"@ + trimmed(version@)
                + "' — image import supports containerd and docker"@,
        ),
{
    if trimmed(version@) == "containerd"@ + "://"@ + rest {
        lemma_runtime_of(version@, "containerd"@, rest);
    }
    if trimmed(version@) == "docker"@ + "://"@ + rest {
        lemma_runtime_of(version@, "docker"@, rest);
    }
}

/// An archive is loaded on the host by the runtime's own command, which reads it from its
/// standard input.
pub proof fn law_a_load_runs_on_the_host(runtime: &str, r: AppResult<Vec<String>>)
    requires
        call_ensures(load_command, (runtime,), r),
    ensures
        r is Ok <==> runtime@ == "containerd"@ || runtime@ == "docker"@,
        r is Ok ==> texts(r->Ok_0@).len() == 12 && texts(r->Ok_0@).take(11) == seq![
            "nsenter"@,
            "--target"@,
            "1"@,
            "--mount"@,
            "--uts"@,
            "--ipc"@,
            "--net"@,
            "--pid"@,
            "--"@,
            "/bin/sh"@,
            "-c"@,
        ],
        r is Ok && runtime@ == "containerd"@ ==> texts(r->Ok_0@)[11]
            == "ctr --address /run/containerd/containerd.sock images import --no-unpack -"@,
        r is Ok && runtime@ != "containerd"@ ==> texts(r->Ok_0@)[11] == "docker load"@,
{
}

proof fn lemma_loaded_refs(ls: Seq<Seq<char>>, x: Seq<char>)
    ensures
        loaded_refs(ls).contains(x) <==> exists|i: int|
            #![trigger ls[i]]
            0 <= i < ls.len() && loaded_ref(ls[i]) == Some(x),
    decreases ls.len(),
{
    if ls.len() > 0 {
        let t = ls.drop_last();
        let front = loaded_refs(t);
        let all = loaded_refs(ls);
        lemma_loaded_refs(t, x);
        if all.contains(x) {
            let k = choose|k: int| 0 <= k < all.len() && all[k] == x;
            if k < front.len() {
                assert(front[k] == x);
                let i = choose|i: int|
                    #![trigger t[i]]
                    0 <= i < t.len() && loaded_ref(t[i]) == Some(x);
                assert(ls[i] == t[i]);
            } else {
                assert(ls[ls.len() - 1] == ls.last());
            }
        }
        if exists|i: int| #![trigger ls[i]] 0 <= i < ls.len() && loaded_ref(ls[i]) == Some(x) {
            let i = choose|i: int|
                #![trigger ls[i]]
                0 <= i < ls.len() && loaded_ref(ls[i]) == Some(x);
            if i < t.len() {
                assert(t[i] == ls[i]);
                let k = choose|k: int| 0 <= k < front.len() && front[k] == x;
                assert(all[k] == x);
            } else {
                assert(all[all.len() - 1] == x);
            }
        }
    }
}

/// What docker says it loaded is found, and so is a line of containerd's that holds a colon
/// and shows no progress; each is listed once.
pub proof fn law_loaded_images_are_found(output: &str, r: Vec<String>, i: int, name: Seq<char>)
    requires
        call_ensures(parse_loaded_images, (output,), r),
        0 <= i < lines_of(output@).len(),
    ensures
        ({
            let l = trimmed(lines_of(output@)[i]);
            let name = trimmed(name);
            &&& (l == "Loaded image:"@ + name && name.len() > 0 ==> texts(r@).contains(name))
            &&& (l.contains(':') && !l.contains('%') && !has_prefix(l, "Loaded image"@)
                && !has_prefix(l, "unpacking"@) && !has_prefix(l, "elapsed"@) && !has_prefix(
                l,
                "importing"@,
            ) && !has_prefix(l, "done"@) ==> texts(r@).contains(l))
        }),
        texts(r@).no_duplicates(),
{
    let ls = lines_of(output@);
    let l = trimmed(ls[i]);
    let refs = loaded_refs(ls);
    lemma_distinct(refs);
    reveal_strlit("Loaded image:");
    reveal_strlit("Loaded image ID:");
    reveal_strlit("Loaded image");
    assert("Loaded image:"@.len() == 13 && "Loaded image ID:"@.len() == 16 && "Loaded image"@.len()
        == 12);
    let n = trimmed(name);
    if l == "Loaded image:"@ + n && n.len() > 0 {
        assert(l.take(13) =~= "Loaded image:"@);
        assert(l.skip(13) =~= n);
        lemma_trimmed_again(name);
        lemma_loaded_refs(ls, n);
        assert(loaded_ref(ls[i]) == Some(n));
    }
    if l.contains(':') && !has_prefix(l, "Loaded image"@) && looks_like_ref(l) {
        if has_prefix(l, "Loaded image:"@) {
            assert(l.take(12) =~= l.take(13).take(12));
            assert("Loaded image:"@.take(12) =~= "Loaded image"@);
        }
        if has_prefix(l, "Loaded image ID:"@) {
            assert(l.take(12) =~= l.take(16).take(12));
            assert("Loaded image ID:"@.take(12) =~= "Loaded image"@);
        }
        lemma_loaded_refs(ls, l);
        assert(loaded_ref(ls[i]) == Some(l));
    }
}

/// What is listed as loaded stands on a line of the output; no line of progress is listed.
pub proof fn law_only_loaded_images_are_listed(output: &str, r: Vec<String>, x: Seq<char>)
    requires
        call_ensures(parse_loaded_images, (output,), r),
        texts(r@).contains(x),
    ensures
        x.len() > 0,
        exists|i: int|
            #![trigger lines_of(output@)[i]]
            0 <= i < lines_of(output@).len() && ({
                let l = trimmed(lines_of(output@)[i]);
                ||| has_prefix(l, "Loaded image:"@) && x == trimmed(l.skip(13))
                ||| has_prefix(l, "Loaded image ID:"@) && x == trimmed(l.skip(16))
                ||| x == l && !l.contains('%') && !has_prefix(l, "unpacking"@) && !has_prefix(
                    l,
                    "elapsed"@,
                ) && !has_prefix(l, "importing"@) && !has_prefix(l, "done"@)
            }),
{
    let ls = lines_of(output@);
    reveal_strlit("Loaded image:");
    reveal_strlit("Loaded image ID:");
    assert("Loaded image:"@.len() == 13 && "Loaded image ID:"@.len() == 16);
    lemma_distinct(loaded_refs(ls));
    lemma_loaded_refs(ls, x);
    let i = choose|i: int|
        #![trigger ls[i]]
        0 <= i < ls.len() && loaded_ref(ls[i]) == Some(x);
    let l = trimmed(ls[i]);
    assert(ls[i] == lines_of(output@)[i]);
}

/// A node's name as part of a pod's name is made of small letters, digits and dashes, with no
/// dash at either end; of those it leaves what it finds.
pub proof fn law_a_name_part_may_stand_in_a_pod_name(node: &str, r: String)
    requires
        call_ensures(sanitize_for_name, (node,), r),
    ensures
        forall|i: int|
            0 <= i < r@.len() ==> {
                let c = #[trigger] r@[i];
                ('a' <= c && c <= 'z') || ('0' <= c && c <= '9') || c == '-'
            },
        r@.len() > 0 ==> r@[0] != '-' && r@.last() != '-',
        (forall|i: int|
            0 <= i < node@.len() ==> {
                let c = #[trigger] node@[i];
                ('a' <= c && c <= 'z') || ('0' <= c && c <= '9') || (c == '-' && 0 < i < node@.len()
                    - 1)
            }) ==> r@ == node@,
{
    let d = dashed(node@);
    let n = lemma_without_start(d, '-');
    let t = d.skip(n);
    let m = lemma_without_end(t, '-');
    let u = t.take(m);
    assert(r@ == ascii_lower(u));
    assert forall|i: int| 0 <= i < r@.len() implies {
        let c = #[trigger] r@[i];
        ('a' <= c && c <= 'z') || ('0' <= c && c <= '9') || c == '-'
    } by {
        assert(r@[i] == lower_char(u[i]));
        assert(u[i] == d[n + i]);
        let c = node@[n + i];
        assert(d[n + i] == if is_alnum(c) { c } else { '-' });
    }
    if r@.len() > 0 {
        assert(u[0] == d[n]);
        assert(u.last() == t[m - 1]);
        lemma_lower_keeps_dashes(u[0]);
        lemma_lower_keeps_dashes(u.last());
    }
    if forall|i: int|
        0 <= i < node@.len() ==> {
            let c = #[trigger] node@[i];
            ('a' <= c && c <= 'z') || ('0' <= c && c <= '9') || (c == '-' && 0 < i < node@.len() - 1)
        } {
        assert forall|i: int| 0 <= i < node@.len() implies d[i] == node@[i] by {
            let c = node@[i];
            assert(('a' <= c && c <= 'z') || ('0' <= c && c <= '9') || c == '-');
        }
        assert(d =~= node@);
        if node@.len() > 0 {
            let a = node@[0];
            let z = node@[node@.len() - 1];
            assert(a != '-' && z != '-');
            if n > 0 {
                assert(d[0] == '-');
            }
            assert(t =~= d);
            if m < t.len() {
                assert(t[t.len() - 1] == '-');
            }
        }
        assert(u =~= node@);
        assert forall|i: int| 0 <= i < node@.len() implies r@[i] == node@[i] by {
            let c = node@[i];
            assert(('a' <= c && c <= 'z') || ('0' <= c && c <= '9') || c == '-');
        }
        assert(r@ =~= node@);
    }
}

proof fn lemma_lower_keeps_dashes(c: char)
    ensures
        lower_char(c) == '-' ==> c == '-',
{
}

/// An import runs the load command of the node's runtime, in a pod of its own number.
pub proof fn law_an_import_is_of_the_nodes_runtime(
    version: &str,
    runtime: &str,
    rest: Seq<char>,
    node: &str,
    seq: u64,
    configured: Option<&str>,
    r: ImportStart,
    part: String,
    command: AppResult<Vec<String>>,
)
    requires
        call_ensures(begin_import, (version, node, seq, configured), r),
        call_ensures(sanitize_for_name, (node,), part),
        call_ensures(load_command, (runtime,), command),
        trimmed(version@) == runtime@ + "://"@ + rest,
        runtime@ == "containerd"@ || runtime@ == "docker"@,
    ensures
        command is Ok,
        r matches ImportStart::Planned(p) && p.runtime@ == runtime@ && texts(p.argv@) == texts(
            command->Ok_0@,
        ) && p.pod_name@ == "k7s-imgimp-"@ + part@ + "-"@ + dec(seq as nat),
{
    lemma_runtime_of(version@, runtime@, rest);
}

/// A result says what was printed, or why nothing was loaded.
pub proof fn law_an_import_is_reported(
    runtime: &str,
    outcome: AppResult<String>,
    r: ImportResult,
    output: &str,
    images: Vec<String>,
)
    requires
        call_ensures(finish_import, (runtime, outcome), r),
        call_ensures(parse_loaded_images, (output,), images),
        outcome is Ok ==> outcome->Ok_0@ == output@,
    ensures
        r.runtime@ == runtime@,
        outcome is Ok <==> r.error is None,
        outcome is Ok ==> r.output@ == output@ && texts(r.images@) == texts(images@),
        outcome is Err ==> r.error->0@ == outcome->Err_0.text() && r.images@.len() == 0,
{
}

/// A load that succeeded hands on what was printed, and one that failed says what was.
pub proof fn law_load_says_what_was_printed(
    status: Option<Option<&str>>,
    message: &str,
    output: &str,
    r: AppResult<String>,
    success: bool,
)
    requires
        call_ensures(load_outcome, (status, message, output), r),
        call_ensures(was_success, (status,), success),
    ensures
        success ==> (r matches Ok(s) && s@ == output@),
        !success ==> (r matches Err(e) && e.is_other(
            "image load failed: "@ + message@ + " (output: "@ + output@ + ")"@,
        )),
{
}

} // verus!
