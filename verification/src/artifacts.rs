//! Resolving compiled dependency artifacts.
//!
//! The build tool's metadata-only pass reports, line by line, which artifact
//! files each dependency produced. Every file whose logical name is in the
//! dependency set is recorded under its stem identifier; when several kinds
//! collide on one identifier, a linkable library wins over a metadata file,
//! which wins over anything else.

use vstd::prelude::*;

use crate::text::{
    contains_str, lemma_lex_lt_connex, lemma_lex_lt_irrefl, lemma_strictly_sorted_pairwise,
    lex_lt, str_lt, strictly_sorted, views,
};

verus! {

/// Index of the last occurrence of `c` in `s`, or `-1`.
pub open spec fn last_pos(s: Seq<char>, c: char) -> int
    decreases s.len(),
{
    if s.len() == 0 {
        -1
    } else if s[s.len() - 1] == c {
        s.len() - 1
    } else {
        last_pos(s.take(s.len() - 1), c)
    }
}

/// Whether a character separates path components, in either convention.
pub open spec fn is_separator(c: char) -> bool {
    c == '/' || c == '\\'
}

/// Index of the last path separator in `s`, or `-1`.
pub open spec fn last_sep(s: Seq<char>) -> int
    decreases s.len(),
{
    if s.len() == 0 {
        -1
    } else if is_separator(s[s.len() - 1]) {
        s.len() - 1
    } else {
        last_sep(s.take(s.len() - 1))
    }
}

/// The component of a path after its last separator.
pub open spec fn file_name_of(p: Seq<char>) -> Seq<char> {
    p.skip(last_sep(p) + 1)
}

/// The file name up to its last dot; a lone leading dot starts no extension.
pub open spec fn stem_of(p: Seq<char>) -> Seq<char> {
    let n = file_name_of(p);
    let d = last_pos(n, '.');
    if d <= 0 {
        n
    } else {
        n.take(d)
    }
}

/// The file name after its last dot, empty when there is none.
pub open spec fn ext_of(p: Seq<char>) -> Seq<char> {
    let n = file_name_of(p);
    let d = last_pos(n, '.');
    if d <= 0 {
        Seq::empty()
    } else {
        n.skip(d + 1)
    }
}

/// Index of the last occurrence of `c` among the first `i` characters,
/// reported as a found flag and a position.
fn scan_last(s: &str, c: char) -> (r: (bool, usize))
    ensures
        r.0 ==> 0 <= last_pos(s@, c) && r.1 as int == last_pos(s@, c) && r.1 < s@.len(),
        !r.0 ==> last_pos(s@, c) == -1,
{
    let len = s.unicode_len();
    let mut i: usize = 0;
    let mut found = false;
    let mut pos: usize = 0;
    proof {
        assert(s@.take(0) =~= Seq::<char>::empty());
    }
    while i < len
        invariant
            i <= len,
            len == s@.len(),
            found ==> 0 <= last_pos(s@.take(i as int), c) && pos as int == last_pos(
                s@.take(i as int),
                c,
            ) && pos < i,
            !found ==> last_pos(s@.take(i as int), c) == -1,
        decreases len - i,
    {
        proof {
            assert(s@.take(i as int + 1).take(i as int) =~= s@.take(i as int));
            assert(s@.take(i as int + 1)[i as int] == s@[i as int]);
        }
        if s.get_char(i) == c {
            found = true;
            pos = i;
        }
        i = i + 1;
    }
    proof {
        assert(s@.take(len as int) =~= s@);
    }
    (found, pos)
}

/// Index of the last path separator, reported as a found flag and a position.
fn scan_last_sep(s: &str) -> (r: (bool, usize))
    ensures
        r.0 ==> 0 <= last_sep(s@) && r.1 as int == last_sep(s@) && r.1 < s@.len(),
        !r.0 ==> last_sep(s@) == -1,
{
    let len = s.unicode_len();
    let mut i: usize = 0;
    let mut found = false;
    let mut pos: usize = 0;
    proof {
        assert(s@.take(0) =~= Seq::<char>::empty());
    }
    while i < len
        invariant
            i <= len,
            len == s@.len(),
            found ==> 0 <= last_sep(s@.take(i as int)) && pos as int == last_sep(
                s@.take(i as int),
            ) && pos < i,
            !found ==> last_sep(s@.take(i as int)) == -1,
        decreases len - i,
    {
        proof {
            assert(s@.take(i as int + 1).take(i as int) =~= s@.take(i as int));
            assert(s@.take(i as int + 1)[i as int] == s@[i as int]);
        }
        let c = s.get_char(i);
        if c == '/' || c == '\\' {
            found = true;
            pos = i;
        }
        i = i + 1;
    }
    proof {
        assert(s@.take(len as int) =~= s@);
    }
    (found, pos)
}

/// Splits a path into the stem and the extension of its file name.
pub fn split_stem_ext(path: &str) -> (r: (String, String))
    ensures
        r.0@ == stem_of(path@),
        r.1@ == ext_of(path@),
{
    let len = path.unicode_len();
    let (sep_found, sep) = scan_last_sep(path);
    let start = if sep_found { sep + 1 } else { 0 };
    let name = path.substring_char(start, len);
    proof {
        assert(name@ =~= file_name_of(path@));
    }
    let name_len = name.unicode_len();
    let (dot_found, dot) = scan_last(name, '.');
    if !dot_found || dot == 0 {
        proof {
            assert(stem_of(path@) == name@);
            assert(ext_of(path@) =~= Seq::<char>::empty());
        }
        (String::from_str(name), String::new())
    } else {
        let stem = name.substring_char(0, dot);
        let ext = name.substring_char(dot + 1, name_len);
        proof {
            assert(stem@ =~= stem_of(path@));
            assert(ext@ =~= ext_of(path@));
        }
        (String::from_str(stem), String::from_str(ext))
    }
}

/// What a produced file is to the later build.
#[derive(Clone, Copy, PartialEq, Eq, Structural, Debug)]
pub enum ArtifactKind {
    /// A library probes can link against.
    Linkable,
    /// Compiler metadata only.
    MetadataOnly,
    /// Anything else.
    Other,
}

/// Priority when kinds collide on one identifier.
pub open spec fn rank(k: ArtifactKind) -> int {
    match k {
        ArtifactKind::Linkable => 2,
        ArtifactKind::MetadataOnly => 1,
        ArtifactKind::Other => 0,
    }
}

/// The kind a file extension announces.
pub open spec fn kind_of_ext(ext: Seq<char>) -> ArtifactKind {
    if ext == "rlib"@ {
        ArtifactKind::Linkable
    } else if ext == "rmeta"@ {
        ArtifactKind::MetadataOnly
    } else {
        ArtifactKind::Other
    }
}

/// Classifies a file extension.
pub fn ext_kind(ext: &String) -> (k: ArtifactKind)
    ensures
        k == kind_of_ext(ext@),
{
    if ext.eq(&String::from_str("rlib")) {
        ArtifactKind::Linkable
    } else if ext.eq(&String::from_str("rmeta")) {
        ArtifactKind::MetadataOnly
    } else {
        ArtifactKind::Other
    }
}

/// One recorded artifact file.
pub struct LibEntry {
    /// The file stem, unique within the mapping.
    pub id: String,
    /// The logical dependency name the file belongs to.
    pub name: String,
    /// The file's full path.
    pub path: String,
    /// What the file is to the later build.
    pub kind: ArtifactKind,
}

/// The mathematical shape of one recorded artifact file.
#[verifier::ext_equal]
pub struct LibEntryV {
    pub id: Seq<char>,
    pub name: Seq<char>,
    pub path: Seq<char>,
    pub kind: ArtifactKind,
}

impl View for LibEntry {
    type V = LibEntryV;

    open spec fn view(&self) -> LibEntryV {
        LibEntryV { id: self.id@, name: self.name@, path: self.path@, kind: self.kind }
    }
}

/// The index of the first entry holding `id`, or `-1`.
pub open spec fn find_id(s: Seq<LibEntryV>, id: Seq<char>) -> int
    decreases s.len(),
{
    if s.len() == 0 {
        -1
    } else if s[0].id == id {
        0
    } else {
        let r = find_id(s.skip(1), id);
        if r == -1 {
            -1
        } else {
            r + 1
        }
    }
}

/// `find_id` names the first entry with the identifier, or `-1`.
pub proof fn lemma_find_id(s: Seq<LibEntryV>, id: Seq<char>)
    ensures
        -1 <= find_id(s, id) < s.len(),
        find_id(s, id) >= 0 ==> s[find_id(s, id)].id == id,
        find_id(s, id) >= 0 ==> forall|k: int|
            0 <= k < find_id(s, id) ==> (#[trigger] s[k]).id != id,
        find_id(s, id) == -1 ==> forall|k: int|
            0 <= k < s.len() ==> (#[trigger] s[k]).id != id,
    decreases s.len(),
{
    if s.len() > 0 && s[0].id != id {
        lemma_find_id(s.skip(1), id);
        assert(forall|k: int| 1 <= k < s.len() ==> #[trigger] s[k] == s.skip(1)[k - 1]);
    }
}

/// The identifiers of the entries, in entry order.
pub open spec fn ids_of(s: Seq<LibEntryV>) -> Seq<Seq<char>> {
    s.map_values(|e: LibEntryV| e.id)
}

/// The mapping's invariant: identifiers strictly ascend, as the original
/// build tool's ordered map iterated them.
pub open spec fn sorted_ids(s: Seq<LibEntryV>) -> bool {
    strictly_sorted(ids_of(s))
}

/// Strictly ascending identifiers are pairwise distinct.
pub proof fn lemma_sorted_unique(s: Seq<LibEntryV>)
    requires
        sorted_ids(s),
    ensures
        unique_ids(s),
{
    assert forall|i: int, j: int|
        0 <= i < j < s.len() implies (#[trigger] s[i]).id != (#[trigger] s[j]).id by {
        assert(ids_of(s)[i] == s[i].id);
        assert(ids_of(s)[j] == s[j].id);
        lemma_strictly_sorted_pairwise(ids_of(s), i, j);
        lemma_lex_lt_irrefl(s[i].id);
    }
}

/// The position where `id` belongs: the first entry not preceding it.
pub open spec fn lower_pos(s: Seq<LibEntryV>, id: Seq<char>) -> int
    decreases s.len(),
{
    if s.len() == 0 {
        0
    } else if lex_lt(s[0].id, id) {
        1 + lower_pos(s.skip(1), id)
    } else {
        0
    }
}

/// `lower_pos` names the first entry that does not precede the identifier.
pub proof fn lemma_lower_pos(s: Seq<LibEntryV>, id: Seq<char>)
    ensures
        0 <= lower_pos(s, id) <= s.len(),
        forall|k: int| 0 <= k < lower_pos(s, id) ==> lex_lt((#[trigger] s[k]).id, id),
        lower_pos(s, id) < s.len() ==> !lex_lt(s[lower_pos(s, id)].id, id),
    decreases s.len(),
{
    if s.len() > 0 && lex_lt(s[0].id, id) {
        lemma_lower_pos(s.skip(1), id);
        assert(forall|k: int| 1 <= k < s.len() ==> #[trigger] s[k] == s.skip(1)[k - 1]);
    }
}

/// Recording one file: a fresh identifier takes its ascending place; a
/// colliding one keeps whichever kind ranks higher, the newer on a tie.
pub open spec fn spec_record_file(
    s: Seq<LibEntryV>,
    name: Seq<char>,
    path: Seq<char>,
) -> Seq<LibEntryV> {
    let e = LibEntryV {
        id: stem_of(path),
        name: name,
        path: path,
        kind: kind_of_ext(ext_of(path)),
    };
    let j = find_id(s, e.id);
    if j >= 0 {
        if rank(e.kind) >= rank(s[j].kind) {
            s.update(j, e)
        } else {
            s
        }
    } else {
        s.insert(lower_pos(s, e.id), e)
    }
}

/// Recording every file of one reported artifact, in order.
pub open spec fn spec_record_files(
    s: Seq<LibEntryV>,
    name: Seq<char>,
    paths: Seq<Seq<char>>,
) -> Seq<LibEntryV>
    decreases paths.len(),
{
    if paths.len() == 0 {
        s
    } else {
        spec_record_files(spec_record_file(s, name, paths[0]), name, paths.skip(1))
    }
}

/// What one stream line contributes to the mapping: a reported artifact whose
/// logical name is a dependency has its files recorded; anything else nothing.
pub open spec fn spec_resolve(
    s: Seq<LibEntryV>,
    events: Seq<Option<(Seq<char>, Seq<Seq<char>>)>>,
    deps: Seq<Seq<char>>,
) -> Seq<LibEntryV>
    decreases events.len(),
{
    if events.len() == 0 {
        s
    } else {
        let s2 = match events[0] {
            Option::Some(ev) => if deps.contains(ev.0) {
                spec_record_files(s, ev.0, ev.1)
            } else {
                s
            },
            Option::None => s,
        };
        spec_resolve(s2, events.skip(1), deps)
    }
}

/// One more event extends the fold at its end.
pub proof fn lemma_resolve_push(
    s: Seq<LibEntryV>,
    events: Seq<Option<(Seq<char>, Seq<Seq<char>>)>>,
    ev: Option<(Seq<char>, Seq<Seq<char>>)>,
    deps: Seq<Seq<char>>,
)
    ensures
        spec_resolve(s, events.push(ev), deps) == spec_resolve(
            {
                match ev {
                    Option::Some(p) => if deps.contains(p.0) {
                        spec_record_files(spec_resolve(s, events, deps), p.0, p.1)
                    } else {
                        spec_resolve(s, events, deps)
                    },
                    Option::None => spec_resolve(s, events, deps),
                }
            },
            Seq::empty(),
            deps,
        ),
    decreases events.len(),
{
    if events.len() == 0 {
        assert(events.push(ev)[0] == ev);
        assert(events.push(ev).skip(1) =~= Seq::<Option<(Seq<char>, Seq<Seq<char>>)>>::empty());
    } else {
        assert(events.push(ev)[0] == events[0]);
        assert(events.push(ev).skip(1) =~= events.skip(1).push(ev));
        let s2 = match events[0] {
            Option::Some(p) => if deps.contains(p.0) {
                spec_record_files(s, p.0, p.1)
            } else {
                s
            },
            Option::None => s,
        };
        lemma_resolve_push(s2, events.skip(1), ev, deps);
    }
}

/// Likewise for one more file of an artifact.
pub proof fn lemma_record_files_push(
    s: Seq<LibEntryV>,
    name: Seq<char>,
    paths: Seq<Seq<char>>,
    p: Seq<char>,
)
    ensures
        spec_record_files(s, name, paths.push(p)) == spec_record_file(
            spec_record_files(s, name, paths),
            name,
            p,
        ),
    decreases paths.len(),
{
    let pp = paths.push(p);
    if paths.len() == 0 {
        assert(pp[0] == p);
        assert(pp.skip(1) =~= Seq::<Seq<char>>::empty());
        assert(spec_record_files(s, name, pp) == spec_record_files(
            spec_record_file(s, name, p),
            name,
            pp.skip(1),
        ));
        assert(spec_record_files(spec_record_file(s, name, p), name, pp.skip(1))
            == spec_record_file(s, name, p));
        assert(spec_record_files(s, name, paths) == s);
    } else {
        assert(pp[0] == paths[0]);
        assert(pp.skip(1) =~= paths.skip(1).push(p));
        lemma_record_files_push(spec_record_file(s, name, paths[0]), name, paths.skip(1), p);
        assert(spec_record_files(s, name, pp) == spec_record_files(
            spec_record_file(s, name, paths[0]),
            name,
            paths.skip(1).push(p),
        ));
        assert(spec_record_files(s, name, paths) == spec_record_files(
            spec_record_file(s, name, paths[0]),
            name,
            paths.skip(1),
        ));
    }
}

/// Each identifier is held by at most one entry.
pub open spec fn unique_ids(s: Seq<LibEntryV>) -> bool {
    forall|i: int, j: int|
        0 <= i < j < s.len() ==> (#[trigger] s[i]).id != (#[trigger] s[j]).id
}

/// The resolved mapping: identifier to logical name, path and kind.
pub struct ExternLibs {
    /// The recorded entries, each identifier held once.
    pub entries: Vec<LibEntry>,
}

impl View for ExternLibs {
    type V = Seq<LibEntryV>;

    open spec fn view(&self) -> Seq<LibEntryV> {
        self.entries@.map_values(|e: LibEntry| e@)
    }
}

impl ExternLibs {
    /// An empty mapping.
    pub fn new() -> (r: Self)
        ensures
            r@ =~= Seq::<LibEntryV>::empty(),
            sorted_ids(r@),
    {
        let r = ExternLibs { entries: Vec::new() };
        proof {
            assert(ids_of(r@) =~= Seq::<Seq<char>>::empty());
        }
        r
    }

    /// Records one produced file under the kind-priority rule, keeping the
    /// entries in ascending identifier order.
    pub fn record_file(&mut self, name: &String, path: &String)
        requires
            sorted_ids(old(self)@),
        ensures
            final(self)@ == spec_record_file(old(self)@, name@, path@),
            sorted_ids(final(self)@),
    {
        let (stem, ext) = split_stem_ext(path.as_str());
        let k = ext_kind(&ext);
        proof {
            lemma_find_id(self@, stem@);
        }
        let ghost j = find_id(self@, stem@);
        let mut i: usize = 0;
        while i < self.entries.len()
            invariant
                i <= self.entries@.len(),
                self == old(self),
                j == find_id(self@, stem@),
                sorted_ids(self@),
                stem@ == stem_of(path@),
                k == kind_of_ext(ext_of(path@)),
                -1 <= j < self@.len(),
                j >= 0 ==> self@[j].id == stem@,
                j >= 0 ==> forall|k: int| 0 <= k < j ==> (#[trigger] self@[k]).id != stem@,
                j == -1 ==> forall|k: int|
                    0 <= k < self@.len() ==> (#[trigger] self@[k]).id != stem@,
                forall|k: int| 0 <= k < i ==> (#[trigger] self@[k]).id != stem@,
            decreases self.entries@.len() - i,
        {
            if self.entries[i].id.eq(&stem) {
                proof {
                    assert(self@[i as int] == self.entries@[i as int]@);
                    assert(j == i);
                }
                let keep_rank = rank_of(&self.entries[i].kind);
                let new_rank = rank_of(&k);
                let ghost s0 = self@;
                let ghost ev = LibEntryV {
                    id: stem_of(path@),
                    name: name@,
                    path: path@,
                    kind: kind_of_ext(ext_of(path@)),
                };
                if new_rank >= keep_rank {
                    let e = LibEntry {
                        id: stem,
                        name: name.clone(),
                        path: path.clone(),
                        kind: k,
                    };
                    proof {
                        assert(e@ =~= ev);
                    }
                    self.entries[i] = e;
                    proof {
                        assert(self@ =~= s0.update(i as int, ev));
                        assert(spec_record_file(s0, name@, path@) == s0.update(i as int, ev));
                        assert(ids_of(self@) =~= ids_of(s0));
                    }
                } else {
                    proof {
                        assert(spec_record_file(s0, name@, path@) == s0);
                    }
                }
                return;
            }
            proof {
                assert(self@[i as int] == self.entries@[i as int]@);
            }
            i = i + 1;
        }
        let pos = lib_lower_bound(&self.entries, &stem);
        let ghost pre = self@;
        let ghost pos_g = pos as int;
        let ghost ev = LibEntryV {
            id: stem_of(path@),
            name: name@,
            path: path@,
            kind: kind_of_ext(ext_of(path@)),
        };
        proof {
            assert(j == -1);
            assert(forall|t: int| 0 <= t < pre.len() ==> #[trigger] pre[t] == self.entries@[t]@);
            lemma_lower_pos(pre, stem@);
            assert(pos_g == lower_pos(pre, stem@));
            if pos_g < pre.len() {
                if !lex_lt(ev.id, pre[pos_g].id) {
                    lemma_lex_lt_connex(pre[pos_g].id, ev.id);
                    assert(false);
                }
            }
        }
        let ghost pre_entries = self.entries@;
        let e = LibEntry {
            id: stem,
            name: name.clone(),
            path: path.clone(),
            kind: k,
        };
        proof {
            assert(e@ =~= ev);
        }
        self.entries.insert(pos, e);
        proof {
            pre_entries.insert_ensures(pos_g, e);
            pre.insert_ensures(pos_g, ev);
            assert(self@ =~= pre.insert(pos_g, ev));
            assert(spec_record_file(pre, name@, path@) == pre.insert(pos_g, ev));
            ids_of(pre).insert_ensures(pos_g, ev.id);
            assert(ids_of(self@) =~= ids_of(pre).insert(pos_g, ev.id));
            assert forall|t: int| 0 <= t && t + 1 < ids_of(self@).len() implies lex_lt(
                #[trigger] ids_of(self@)[t],
                ids_of(self@)[t + 1],
            ) by {
                if t + 1 < pos_g {
                    assert(ids_of(self@)[t] == ids_of(pre)[t]);
                    assert(ids_of(self@)[t + 1] == ids_of(pre)[t + 1]);
                } else if t + 1 == pos_g {
                    assert(ids_of(self@)[t] == ids_of(pre)[t]);
                    assert(ids_of(pre)[t] == pre[t].id);
                    assert(ids_of(self@)[t + 1] == ev.id);
                } else if t == pos_g {
                    assert(ids_of(self@)[t] == ev.id);
                    assert(ids_of(self@)[t + 1] == ids_of(pre)[t]);
                    assert(ids_of(pre)[t] == pre[t].id);
                } else {
                    assert(ids_of(self@)[t] == ids_of(pre)[t - 1]);
                    assert(ids_of(self@)[t + 1] == ids_of(pre)[t]);
                }
            }
        }
    }
}

/// The first entry whose identifier does not precede `id`.
fn lib_lower_bound(entries: &Vec<LibEntry>, id: &String) -> (i: usize)
    ensures
        i <= entries@.len(),
        forall|k: int| 0 <= k < i ==> lex_lt((#[trigger] entries@[k])@.id, id@),
        i < entries@.len() ==> !lex_lt(entries@[i as int]@.id, id@),
{
    let mut i: usize = 0;
    loop
        invariant
            i <= entries@.len(),
            forall|k: int| 0 <= k < i ==> lex_lt((#[trigger] entries@[k])@.id, id@),
        decreases entries@.len() - i,
    {
        if i >= entries.len() {
            return i;
        }
        if !str_lt(entries[i].id.as_str(), id.as_str()) {
            return i;
        }
        i = i + 1;
    }
}

/// Executable form of the kind priority.
pub fn rank_of(k: &ArtifactKind) -> (r: u8)
    ensures
        r as int == rank(*k),
{
    match k {
        ArtifactKind::Linkable => 2,
        ArtifactKind::MetadataOnly => 1,
        ArtifactKind::Other => 0,
    }
}

/// A parsed artifact event: the target's logical name and its files.
pub open spec fn artifact_view(r: Option<(String, Vec<String>)>) -> Option<
    (Seq<char>, Seq<Seq<char>>),
> {
    match r {
        Option::None => Option::None,
        Option::Some(p) => Option::Some((p.0@, p.1@.map_values(|f: String| f@))),
    }
}

/// What one line of the build tool's structured output reports: the artifact
/// event it carries, if any. The line alone determines it.
pub uninterp spec fn artifact_of(line: Seq<char>) -> Option<(Seq<char>, Seq<Seq<char>>)>;

/// Relies on cargo_metadata::Message::parse_stream: a line of the build
/// tool's line-delimited JSON output parses to a compiler-artifact event,
/// with its target name and produced file paths, or to something else;
/// an unparseable line is reported as plain text, never an error. The
/// parser runs without its recursion limit, so a pathologically nested
/// line can exhaust the stack — a resource bound inherited from the
/// upstream crate, which expects deeply nested build output.
#[verifier::external_body]
fn parse_artifact(line: &String) -> (r: Option<(String, Vec<String>)>)
    ensures
        artifact_view(r) == artifact_of(line@),
{
    let mut stream = cargo_metadata::Message::parse_stream(line.as_bytes());
    match stream.next() {
        Some(Ok(cargo_metadata::Message::CompilerArtifact(a))) => Some((
            a.target.name,
            a.filenames.into_iter().map(|f| f.into_string()).collect(),
        )),
        _ => None,
    }
}

/// Folds the whole output stream of the metadata-only pass into the artifact
/// mapping, keeping only files of the named dependencies. The entries ascend
/// strictly by identifier, so each identifier is held once.
pub fn get_extern_libs(messages: &Vec<String>, dependencies: &Vec<String>) -> (r: ExternLibs)
    ensures
        r@ == spec_resolve(
            Seq::empty(),
            messages@.map_values(|l: String| artifact_of(l@)),
            views(dependencies@),
        ),
        sorted_ids(r@),
        unique_ids(r@),
{
    let ghost all_events = messages@.map_values(|l: String| artifact_of(l@));
    let ghost deps = views(dependencies@);
    let mut libs = ExternLibs::new();
    let mut i: usize = 0;
    proof {
        assert(all_events.take(0) =~= Seq::<Option<(Seq<char>, Seq<Seq<char>>)>>::empty());
    }
    while i < messages.len()
        invariant
            i <= messages@.len(),
            all_events == messages@.map_values(|l: String| artifact_of(l@)),
            deps == views(dependencies@),
            libs@ == spec_resolve(Seq::empty(), all_events.take(i as int), deps),
            sorted_ids(libs@),
        decreases messages@.len() - i,
    {
        let parsed = parse_artifact(&messages[i]);
        proof {
            assert(all_events[i as int] == artifact_of(messages@[i as int]@));
            assert(all_events.take(i as int + 1) =~= all_events.take(i as int).push(
                all_events[i as int],
            ));
        }
        match parsed {
            Option::Some(pair) => {
                let (name, files) = pair;
                let ghost file_views = files@.map_values(|f: String| f@);
                if contains_str(dependencies, &name) {
                    let ghost pre = libs@;
                    let mut f: usize = 0;
                    proof {
                        assert(file_views.take(0) =~= Seq::<Seq<char>>::empty());
                    }
                    while f < files.len()
                        invariant
                            f <= files@.len(),
                            file_views == files@.map_values(|x: String| x@),
                            libs@ == spec_record_files(pre, name@, file_views.take(f as int)),
                            sorted_ids(libs@),
                        decreases files@.len() - f,
                    {
                        proof {
                            assert(file_views[f as int] == files@[f as int]@);
                            assert(file_views.take(f as int + 1) =~= file_views.take(
                                f as int,
                            ).push(file_views[f as int]));
                            lemma_record_files_push(
                                pre,
                                name@,
                                file_views.take(f as int),
                                file_views[f as int],
                            );
                        }
                        libs.record_file(&name, &files[f]);
                        f = f + 1;
                    }
                    proof {
                        assert(file_views.take(files@.len() as int) =~= file_views);
                        lemma_resolve_push(
                            Seq::empty(),
                            all_events.take(i as int),
                            all_events[i as int],
                            deps,
                        );
                    }
                } else {
                    proof {
                        lemma_resolve_push(
                            Seq::empty(),
                            all_events.take(i as int),
                            all_events[i as int],
                            deps,
                        );
                    }
                }
            },
            Option::None => {
                proof {
                    lemma_resolve_push(
                        Seq::empty(),
                        all_events.take(i as int),
                        all_events[i as int],
                        deps,
                    );
                }
            },
        }
        i = i + 1;
    }
    proof {
        assert(all_events.take(messages@.len() as int) =~= all_events);
        lemma_sorted_unique(libs@);
    }
    libs
}

} // verus!
