//! Loaded scripts and their classification. A file name beginning with `V`,
//! `U` or `R` denotes a forward-versioned, undo-versioned or repeatable
//! migration; for `V` and `U` the text up to the first `__` after the prefix
//! is the version string. The description is the text after the first `__`
//! of the whole name, with underscores rendered as spaces.
use vstd::prelude::*;
use vstd::multiset::Multiset;
use vstd::string::StrSliceExecFns;

use crate::checksum::normalize_line_endings;
use crate::checksum::spec_checksum;
use crate::checksum::spec_normalize;
use crate::strutil::chars_to_string;
use crate::strutil::str_chars;
use crate::strutil::lex_le;
use crate::strutil::str_lex_le;
use crate::version::parse_version;
use crate::version::spec_parse_version;
use crate::version::spec_version_le;
use crate::version::version_le;
use crate::version::Version;

verus! {

/// A script read from disk, before classification.
#[derive(Debug, Clone)]
pub struct SqlFile {
    pub content: String,
    pub file_name: String,
    pub file_path: String,
}

/// The mathematical value of a loaded script.
pub struct SqlFileView {
    pub content: Seq<char>,
    pub file_name: Seq<char>,
    pub file_path: Seq<char>,
}

impl View for SqlFile {
    type V = SqlFileView;

    open spec fn view(&self) -> SqlFileView {
        SqlFileView {
            content: self.content@,
            file_name: self.file_name@,
            file_path: self.file_path@,
        }
    }
}

/// A classified script: the loaded script extended with its normalized
/// content, checksum, kind prefix, version string and description.
#[derive(Debug, Clone)]
pub struct SqlInnerFile {
    pub content: String,
    pub checksum: i32,
    pub file_name: String,
    pub file_path: String,
    pub prefix: String,
    pub version: Option<String>,
    pub description: String,
}

/// The mathematical value of a classified script.
pub struct SqlInnerFileView {
    pub content: Seq<char>,
    pub checksum: int,
    pub file_name: Seq<char>,
    pub file_path: Seq<char>,
    pub prefix: Seq<char>,
    pub version: Option<Seq<char>>,
    pub description: Seq<char>,
}

impl View for SqlInnerFile {
    type V = SqlInnerFileView;

    open spec fn view(&self) -> SqlInnerFileView {
        SqlInnerFileView {
            content: self.content@,
            checksum: self.checksum as int,
            file_name: self.file_name@,
            file_path: self.file_path@,
            prefix: self.prefix@,
            version: match self.version {
                Some(v) => Some(v@),
                None => None,
            },
            description: self.description@,
        }
    }
}

/// The values of a sequence of classified scripts.
pub open spec fn views_of(s: Seq<SqlInnerFile>) -> Seq<SqlInnerFileView> {
    s.map_values(|f: SqlInnerFile| f@)
}

/// The position of the first occurrence of `__` at or after position `i`.
pub open spec fn spec_first_dunder_from(s: Seq<char>, i: int) -> Option<int>
    decreases s.len() - i,
{
    if i < 0 || i + 1 >= s.len() {
        None
    } else if s[i] == '_' && s[i + 1] == '_' {
        Some(i)
    } else {
        spec_first_dunder_from(s, i + 1)
    }
}

/// The position of the first occurrence of `__` in the name.
pub open spec fn spec_first_dunder(s: Seq<char>) -> Option<int> {
    spec_first_dunder_from(s, 0)
}

proof fn lemma_first_dunder_bounds(s: Seq<char>, i: int)
    requires
        0 <= i,
    ensures
        match spec_first_dunder_from(s, i) {
            Some(p) => i <= p && p + 1 < s.len() && s[p] == '_' && s[p + 1] == '_',
            None => true,
        },
    decreases s.len() - i,
{
    if i + 1 < s.len() && !(s[i] == '_' && s[i + 1] == '_') {
        lemma_first_dunder_bounds(s, i + 1);
    }
}

/// The text before the first `__`; the whole text when there is none.
pub open spec fn spec_before_dunder(s: Seq<char>) -> Seq<char> {
    match spec_first_dunder(s) {
        Some(p) => s.subrange(0, p),
        None => s,
    }
}

/// The text with each underscore replaced by a space.
pub open spec fn spec_underscores_to_spaces(s: Seq<char>) -> Seq<char> {
    s.map_values(|c: char| if c == '_' { ' ' } else { c })
}

/// The description a file name carries: the text after its first `__`, with
/// underscores rendered as spaces; empty when the name has no `__`.
pub open spec fn spec_description_of(name: Seq<char>) -> Seq<char> {
    match spec_first_dunder(name) {
        Some(p) => spec_underscores_to_spaces(name.subrange(p + 2, name.len() as int)),
        None => Seq::empty(),
    }
}

/// The name begins with one of the three migration kind prefixes.
pub open spec fn spec_has_known_prefix(name: Seq<char>) -> bool {
    name.len() > 0 && (name[0] == 'U' || name[0] == 'V' || name[0] == 'R')
}

/// The classified record for a loaded script with a known prefix.
pub open spec fn spec_classify(f: SqlFileView) -> SqlInnerFileView {
    SqlInnerFileView {
        content: spec_normalize(f.content),
        checksum: spec_checksum(f.content),
        file_name: f.file_name,
        file_path: f.file_path,
        prefix: seq![f.file_name[0]],
        version: if f.file_name[0] == 'R' {
            None
        } else {
            Some(spec_before_dunder(f.file_name.skip(1)))
        },
        description: spec_description_of(f.file_name),
    }
}

fn find_dunder(cv: &Vec<char>) -> (r: Option<usize>)
    ensures
        match r {
            Some(p) => spec_first_dunder(cv@) == Some(p as int) && p + 1 < cv@.len(),
            None => spec_first_dunder(cv@) is None,
        },
{
    let mut i: usize = 0;
    while i < cv.len() && i + 1 < cv.len()
        invariant
            i <= cv@.len(),
            spec_first_dunder(cv@) == spec_first_dunder_from(cv@, i as int),
        decreases cv@.len() - i,
    {
        if cv[i] == '_' && cv[i + 1] == '_' {
            return Some(i);
        }
        i = i + 1;
    }
    None
}

fn subrange_string(cv: &Vec<char>, from: usize, to: usize) -> (r: String)
    requires
        from <= to <= cv@.len(),
    ensures
        r@ == cv@.subrange(from as int, to as int),
{
    let mut out: Vec<char> = Vec::new();
    let mut j: usize = from;
    while j < to
        invariant
            from <= j <= to <= cv@.len(),
            out@ == cv@.subrange(from as int, j as int),
        decreases to - j,
    {
        out.push(cv[j]);
        j = j + 1;
        assert(out@ =~= cv@.subrange(from as int, j as int));
    }
    chars_to_string(&out)
}

fn underscores_to_spaces(cv: &Vec<char>, from: usize) -> (r: String)
    requires
        from <= cv@.len(),
    ensures
        r@ == spec_underscores_to_spaces(cv@.subrange(from as int, cv@.len() as int)),
{
    let mut out: Vec<char> = Vec::new();
    let mut j: usize = from;
    while j < cv.len()
        invariant
            from <= j <= cv@.len(),
            out@ == spec_underscores_to_spaces(cv@.subrange(from as int, j as int)),
        decreases cv@.len() - j,
    {
        let c = cv[j];
        if c == '_' {
            out.push(' ');
        } else {
            out.push(c);
        }
        j = j + 1;
        assert(out@ =~= spec_underscores_to_spaces(
            cv@.subrange(from as int, j as int),
        ));
    }
    assert(out@ =~= spec_underscores_to_spaces(
        cv@.subrange(from as int, cv@.len() as int),
    ));
    chars_to_string(&out)
}

fn version_part(nv: &Vec<char>) -> (r: String)
    requires
        nv@.len() >= 1,
    ensures
        r@ == spec_before_dunder(nv@.skip(1)),
{
    let mut sv: Vec<char> = Vec::new();
    let mut j: usize = 1;
    while j < nv.len()
        invariant
            1 <= j <= nv@.len(),
            sv@ == nv@.subrange(1, j as int),
        decreases nv@.len() - j,
    {
        sv.push(nv[j]);
        j = j + 1;
        assert(sv@ =~= nv@.subrange(1, j as int));
    }
    assert(sv@ =~= nv@.skip(1));
    proof {
        lemma_first_dunder_bounds(sv@, 0);
        assert(sv@.subrange(0, sv@.len() as int) =~= sv@);
    }
    match find_dunder(&sv) {
        Some(p) => subrange_string(&sv, 0, p),
        None => {
            let l = sv.len();
            subrange_string(&sv, 0, l)
        },
    }
}

impl SqlInnerFile {
    /// Classifies a loaded script whose file name begins with `V`, `U` or
    /// `R`: normalizes line endings, computes the checksum, and splits the
    /// name into prefix, version string and description.
    pub fn from(file: SqlFile) -> (r: SqlInnerFile)
        requires
            spec_has_known_prefix(file@.file_name),
        ensures
            r@ == spec_classify(file@),
    {
        let SqlFile { content, file_name, file_path } = file;
        let nv = str_chars(file_name.as_str());
        let first = nv[0];

        let mut pv: Vec<char> = Vec::new();
        pv.push(first);
        let prefix = chars_to_string(&pv);
        assert(prefix@ =~= seq![first]);

        let version: Option<String> = if first == 'R' {
            None
        } else {
            Some(version_part(&nv))
        };

        let n: usize = nv.len();
        let description = match find_dunder(&nv) {
            Some(p) => {
                assert(p + 1 < n);
                underscores_to_spaces(&nv, p + 2)
            },
            None => String::new(),
        };

        let normalized = normalize_line_endings(content.as_str());
        let checksum = crate::checksum::u32_as_i32(
            crate::checksum::crc32_str(normalized.as_str()),
        );

        SqlInnerFile {
            content: normalized,
            checksum,
            file_name,
            file_path,
            prefix,
            version,
            description,
        }
    }
}

/// Classifies a loaded script, or nothing when its file name has no known
/// prefix: such a file is silently excluded from the applied stream.
pub fn classify(file: SqlFile) -> (r: Option<SqlInnerFile>)
    ensures
        match r {
            Some(f) => spec_has_known_prefix(file@.file_name) && f@ == spec_classify(file@),
            None => !spec_has_known_prefix(file@.file_name),
        },
{
    if file.file_name.as_str().is_empty() {
        return None;
    }
    let first = file.file_name.as_str().get_char(0);
    if first == 'U' || first == 'V' || first == 'R' {
        Some(SqlInnerFile::from(file))
    } else {
        None
    }
}

/// The sort kind of a migration, extracted from its file name.
#[derive(Debug)]
pub enum SqlFileKind {
    U(Version),
    V(Version),
    R(String),
}

/// The mathematical value of a sort kind.
pub enum SqlFileKindView {
    U(Version),
    V(Version),
    R(Seq<char>),
}

impl View for SqlFileKind {
    type V = SqlFileKindView;

    open spec fn view(&self) -> SqlFileKindView {
        match self {
            SqlFileKind::U(v) => SqlFileKindView::U(*v),
            SqlFileKind::V(v) => SqlFileKindView::V(*v),
            SqlFileKind::R(s) => SqlFileKindView::R(s@),
        }
    }
}

/// The sort kind a file name denotes: U or V with its parsed version, R
/// with the whole name, or nothing when the name is unsortable.
pub open spec fn spec_kind(name: Seq<char>) -> Option<SqlFileKindView> {
    if name.len() == 0 {
        None
    } else if name[0] == 'U' {
        match spec_parse_version(spec_before_dunder(name.skip(1))) {
            Some(v) => Some(SqlFileKindView::U(v)),
            None => None,
        }
    } else if name[0] == 'V' {
        match spec_parse_version(spec_before_dunder(name.skip(1))) {
            Some(v) => Some(SqlFileKindView::V(v)),
            None => None,
        }
    } else if name[0] == 'R' {
        Some(SqlFileKindView::R(name))
    } else {
        None
    }
}

impl SqlInnerFile {
    /// The sort kind of this migration, or nothing when its file name is
    /// unsortable: no known prefix or, for U and V, no parsable version.
    pub fn kind(&self) -> (r: Option<SqlFileKind>)
        ensures
            match r {
                Some(k) => spec_kind(self@.file_name) == Some(k@),
                None => spec_kind(self@.file_name) is None,
            },
    {
        let nv = str_chars(self.file_name.as_str());
        if nv.len() == 0 {
            return None;
        }
        let first = nv[0];
        if first == 'U' {
            let vstr = version_part(&nv);
            match parse_version(vstr.as_str()) {
                Some(v) => Some(SqlFileKind::U(v)),
                None => None,
            }
        } else if first == 'V' {
            let vstr = version_part(&nv);
            match parse_version(vstr.as_str()) {
                Some(v) => Some(SqlFileKind::V(v)),
                None => None,
            }
        } else if first == 'R' {
            Some(SqlFileKind::R(self.file_name.clone()))
        } else {
            None
        }
    }
}

/// The rank of a kind in the order U < V < R, unsortable names last.
pub open spec fn spec_kind_rank(k: Option<SqlFileKindView>) -> int {
    match k {
        Some(SqlFileKindView::U(_)) => 0,
        Some(SqlFileKindView::V(_)) => 1,
        Some(SqlFileKindView::R(_)) => 2,
        None => 3,
    }
}

/// The total order on file names used to sort migrations: kinds in the
/// order U < V < R; within U and within V by version ascending; within R by
/// name ascending; unsortable names after everything else.
pub open spec fn spec_file_le(a: Seq<char>, b: Seq<char>) -> bool {
    let ka = spec_kind(a);
    let kb = spec_kind(b);
    if spec_kind_rank(ka) != spec_kind_rank(kb) {
        spec_kind_rank(ka) < spec_kind_rank(kb)
    } else {
        match (ka, kb) {
            (Some(SqlFileKindView::U(va)), Some(SqlFileKindView::U(vb))) => spec_version_le(
                va,
                vb,
            ),
            (Some(SqlFileKindView::V(va)), Some(SqlFileKindView::V(vb))) => spec_version_le(
                va,
                vb,
            ),
            (Some(SqlFileKindView::R(na)), Some(SqlFileKindView::R(nb))) => lex_le(na, nb),
            _ => true,
        }
    }
}

/// The order on file names relates every pair, one way or the other.
pub proof fn lemma_file_le_total(a: Seq<char>, b: Seq<char>)
    ensures
        spec_file_le(a, b) || spec_file_le(b, a),
{
    crate::strutil::lemma_lex_le_total(a, b);
}

/// The order on file names is transitive.
pub proof fn lemma_file_le_trans(a: Seq<char>, b: Seq<char>, c: Seq<char>)
    requires
        spec_file_le(a, b),
        spec_file_le(b, c),
    ensures
        spec_file_le(a, c),
{
    match (spec_kind(a), spec_kind(b), spec_kind(c)) {
        (
            Some(SqlFileKindView::R(na)),
            Some(SqlFileKindView::R(nb)),
            Some(SqlFileKindView::R(nc)),
        ) => {
            crate::strutil::lemma_lex_le_trans(na, nb, nc);
        },
        _ => {},
    }
}

/// Compares two classified scripts in the order of `spec_file_le` on their
/// file names.
fn file_le(a: &SqlInnerFile, b: &SqlInnerFile) -> (r: bool)
    ensures
        r == spec_file_le(a@.file_name, b@.file_name),
{
    let ka = a.kind();
    let kb = b.kind();
    match (&ka, &kb) {
        (Some(SqlFileKind::U(va)), Some(SqlFileKind::U(vb))) => version_le(va, vb),
        (Some(SqlFileKind::V(va)), Some(SqlFileKind::V(vb))) => version_le(va, vb),
        (Some(SqlFileKind::R(na)), Some(SqlFileKind::R(nb))) => str_lex_le(
            na.as_str(),
            nb.as_str(),
        ),
        (Some(SqlFileKind::U(_)), _) => true,
        (_, Some(SqlFileKind::U(_))) => false,
        (Some(SqlFileKind::V(_)), _) => true,
        (_, Some(SqlFileKind::V(_))) => false,
        (Some(SqlFileKind::R(_)), None) => true,
        (None, Some(SqlFileKind::R(_))) => false,
        (None, None) => true,
    }
}

/// The sequence of classified-script values ascends in the migration order.
pub open spec fn spec_views_sorted(s: Seq<SqlInnerFileView>) -> bool {
    forall|i: int, j: int|
        0 <= i < j < s.len() ==> #[trigger] spec_file_le(s[i].file_name, s[j].file_name)
}

proof fn lemma_empty_views_multiset()
    ensures
        Seq::<SqlInnerFileView>::empty().to_multiset() =~= Multiset::<SqlInnerFileView>::empty(),
{
    broadcast use vstd::seq_lib::group_to_multiset_ensures;

    assert forall|a: SqlInnerFileView|
        Seq::<SqlInnerFileView>::empty().to_multiset().count(a) == 0 by {
        assert(!Seq::<SqlInnerFileView>::empty().contains(a));
    }
}

proof fn lemma_singleton_views_multiset(x: SqlInnerFileView)
    ensures
        seq![x].to_multiset() =~= Multiset::<SqlInnerFileView>::empty().insert(x),
{
    broadcast use vstd::seq_lib::group_to_multiset_ensures;

    assert(seq![x] =~= Seq::<SqlInnerFileView>::empty().push(x));
    lemma_empty_views_multiset();
}

proof fn lemma_views_multiset_insert(s: Seq<SqlInnerFile>, pos: int, f: SqlInnerFile)
    requires
        0 <= pos <= s.len(),
    ensures
        views_of(s.insert(pos, f)).to_multiset() =~= views_of(s).to_multiset().insert(f@),
{
    let vs = views_of(s);
    let vn = views_of(s.insert(pos, f));
    s.insert_ensures(pos, f);
    assert(vn =~= vs.subrange(0, pos) + (seq![f@] + vs.subrange(pos, vs.len() as int)));
    assert(vs =~= vs.subrange(0, pos) + vs.subrange(pos, vs.len() as int));
    vstd::seq_lib::lemma_multiset_commutative(
        vs.subrange(0, pos),
        seq![f@] + vs.subrange(pos, vs.len() as int),
    );
    vstd::seq_lib::lemma_multiset_commutative(seq![f@], vs.subrange(pos, vs.len() as int));
    vstd::seq_lib::lemma_multiset_commutative(
        vs.subrange(0, pos),
        vs.subrange(pos, vs.len() as int),
    );
    lemma_singleton_views_multiset(f@);
}

fn insert_pos(result: &Vec<SqlInnerFile>, f: &SqlInnerFile) -> (pos: usize)
    ensures
        pos <= result@.len(),
        forall|k: int|
            0 <= k < pos ==> #[trigger] spec_file_le(result@[k]@.file_name, f@.file_name),
        pos < result@.len() ==> !spec_file_le(result@[pos as int]@.file_name, f@.file_name),
{
    let mut pos: usize = 0;
    while pos < result.len()
        invariant
            pos <= result@.len(),
            forall|k: int|
                0 <= k < pos ==> #[trigger] spec_file_le(result@[k]@.file_name, f@.file_name),
        decreases result@.len() - pos,
    {
        if !file_le(&result[pos], f) {
            return pos;
        }
        pos = pos + 1;
    }
    pos
}

/// Sorts classified scripts into the migration order: the result is a
/// permutation of the input whose file names ascend in `spec_file_le`.
pub fn sort_sql_files(files: Vec<SqlInnerFile>) -> (r: Vec<SqlInnerFile>)
    ensures
        views_of(r@).to_multiset() == views_of(files@).to_multiset(),
        spec_views_sorted(views_of(r@)),
{
    let ghost orig = files@;
    let mut input = files;
    let mut result: Vec<SqlInnerFile> = Vec::new();
    proof {
        assert(views_of(result@) =~= Seq::<SqlInnerFileView>::empty());
        lemma_empty_views_multiset();
        assert(views_of(result@).to_multiset().add(views_of(input@).to_multiset()) =~= views_of(
            orig,
        ).to_multiset());
    }
    while input.len() > 0
        invariant
            spec_views_sorted(views_of(result@)),
            views_of(result@).to_multiset().add(views_of(input@).to_multiset()) == views_of(
                orig,
            ).to_multiset(),
        decreases input@.len(),
    {
        let ghost input0 = input@;
        let ghost result0 = result@;
        let f = input.remove(0);
        proof {
            assert(views_of(input0) =~= seq![f@] + views_of(input@));
            vstd::seq_lib::lemma_multiset_commutative(seq![f@], views_of(input@));
            lemma_singleton_views_multiset(f@);
        }
        let pos = insert_pos(&result, &f);
        result.insert(pos, f);
        proof {
            let vs0 = views_of(result0);
            let vn = views_of(result@);
            assert(result@ == result0.insert(pos as int, f));
            result0.insert_ensures(pos as int, f);
            assert(vn =~= vs0.insert(pos as int, f@));
            vs0.insert_ensures(pos as int, f@);
            assert forall|i: int, j: int| 0 <= i < j < vn.len() implies #[trigger] spec_file_le(
                vn[i].file_name,
                vn[j].file_name,
            ) by {
                if j < pos {
                } else if i < pos && j == pos {
                    assert(vn[j] == f@);
                } else if i < pos && j > pos {
                    assert(vn[j] == vs0[j - 1]);
                } else if i == pos {
                    assert(vn[i] == f@);
                    assert(vn[j] == vs0[j - 1]);
                    assert(pos < vs0.len());
                    lemma_file_le_total(vs0[pos as int].file_name, f@.file_name);
                    if j - 1 > pos {
                        lemma_file_le_trans(
                            f@.file_name,
                            vs0[pos as int].file_name,
                            vs0[j - 1].file_name,
                        );
                    }
                } else {
                    assert(vn[i] == vs0[i - 1]);
                    assert(vn[j] == vs0[j - 1]);
                }
            }
            lemma_views_multiset_insert(result0, pos as int, f);
            assert(views_of(result@).to_multiset().add(views_of(input@).to_multiset()) =~= views_of(
                orig,
            ).to_multiset());
        }
    }
    proof {
        assert(views_of(input@) =~= Seq::<SqlInnerFileView>::empty());
        lemma_empty_views_multiset();
        assert(views_of(result@).to_multiset().add(views_of(input@).to_multiset()) =~= views_of(
            result@,
        ).to_multiset());
    }
    result
}

/// The file name denotes a forward-versioned migration.
pub open spec fn spec_is_v(name: Seq<char>) -> bool {
    spec_kind(name) matches Some(SqlFileKindView::V(_))
}

/// The forward-versioned subset of a sequence of classified-script values,
/// in their original order.
pub open spec fn spec_v_filter(s: Seq<SqlInnerFileView>) -> Seq<SqlInnerFileView> {
    s.filter(|fv: SqlInnerFileView| spec_is_v(fv.file_name))
}

/// Retains only the forward-versioned migrations, keeping their order.
pub fn filter_v_files(files: Vec<SqlInnerFile>) -> (r: Vec<SqlInnerFile>)
    ensures
        views_of(r@) == spec_v_filter(views_of(files@)),
{
    let ghost orig = files@;
    let mut input = files;
    let mut r: Vec<SqlInnerFile> = Vec::new();
    proof {
        assert(views_of(orig.subrange(0, 0)) =~= Seq::<SqlInnerFileView>::empty());
        assert(views_of(r@) =~= Seq::<SqlInnerFileView>::empty());
    }
    while input.len() > 0
        invariant
            input@.len() <= orig.len(),
            input@ == orig.subrange(orig.len() - input@.len(), orig.len() as int),
            views_of(r@) == spec_v_filter(
                views_of(orig.subrange(0, orig.len() - input@.len())),
            ),
        decreases input@.len(),
    {
        let ghost k = orig.len() - input@.len();
        let ghost r0 = r@;
        let f = input.remove(0);
        assert(f == orig[k]);
        let ghost a = views_of(orig.subrange(0, k));
        let is_v = match f.kind() {
            Some(SqlFileKind::V(_)) => true,
            _ => false,
        };
        proof {
            reveal(Seq::filter);
            let x = orig[k]@;
            assert(views_of(orig.subrange(0, k + 1)) =~= a.push(x));
            assert(a.push(x).len() != 0);
            assert(a.push(x).drop_last() =~= a);
            assert(a.push(x).last() == x);
            assert(input@ =~= orig.subrange(orig.len() - input@.len(), orig.len() as int));
            if is_v {
                assert(spec_is_v(x.file_name));
                assert(spec_v_filter(a.push(x)) == spec_v_filter(a).push(x));
            } else {
                assert(!spec_is_v(x.file_name));
                assert(spec_v_filter(a.push(x)) == spec_v_filter(a));
            }
        }
        if is_v {
            r.push(f);
            proof {
                assert(views_of(r@) =~= views_of(r0).push(orig[k]@));
            }
        }
    }
    proof {
        assert(orig.subrange(0, orig.len() as int) =~= orig);
    }
    r
}

/// The values of a sequence of loaded scripts.
pub open spec fn file_views_of(s: Seq<SqlFile>) -> Seq<SqlFileView> {
    s.map_values(|f: SqlFile| f@)
}

/// The classified records of the scripts with a known prefix, in order.
pub open spec fn spec_classified(files: Seq<SqlFileView>) -> Seq<SqlInnerFileView> {
    files.filter(|f: SqlFileView| spec_has_known_prefix(f.file_name)).map_values(
        |f: SqlFileView| spec_classify(f),
    )
}

/// The forward-versioned subset of the classified scripts, in input order.
pub open spec fn spec_v_subset(files: Seq<SqlFileView>) -> Seq<SqlInnerFileView> {
    spec_v_filter(spec_classified(files))
}

/// Classifies every loaded script, silently excluding those whose file
/// name has no known prefix.
pub fn classify_files(files: Vec<SqlFile>) -> (r: Vec<SqlInnerFile>)
    ensures
        views_of(r@) == spec_classified(file_views_of(files@)),
{
    let ghost orig = files@;
    let mut input = files;
    let mut r: Vec<SqlInnerFile> = Vec::new();
    proof {
        reveal(Seq::filter);
        assert(file_views_of(orig.subrange(0, 0)) =~= Seq::<SqlFileView>::empty());
        assert(views_of(r@) =~= Seq::<SqlInnerFileView>::empty());
        assert(spec_classified(file_views_of(orig.subrange(0, 0))) =~= Seq::<
            SqlInnerFileView,
        >::empty());
    }
    while input.len() > 0
        invariant
            input@.len() <= orig.len(),
            input@ == orig.subrange(orig.len() - input@.len(), orig.len() as int),
            views_of(r@) == spec_classified(
                file_views_of(orig.subrange(0, orig.len() - input@.len())),
            ),
        decreases input@.len(),
    {
        let ghost k = orig.len() - input@.len();
        let ghost r0 = r@;
        let f = input.remove(0);
        assert(f == orig[k]);
        let ghost a = file_views_of(orig.subrange(0, k));
        let classified = classify(f);
        proof {
            reveal(Seq::filter);
            let x = orig[k]@;
            assert(file_views_of(orig.subrange(0, k + 1)) =~= a.push(x));
            let pref = a.filter(|fv: SqlFileView| spec_has_known_prefix(fv.file_name));
            assert(a.push(x).len() != 0);
            assert(a.push(x).drop_last() =~= a);
            assert(a.push(x).last() == x);
            if spec_has_known_prefix(x.file_name) {
                assert(a.push(x).filter(
                    |fv: SqlFileView| spec_has_known_prefix(fv.file_name),
                ) == pref.push(x));
                assert(pref.push(x).map_values(|fv: SqlFileView| spec_classify(fv))
                    =~= pref.map_values(|fv: SqlFileView| spec_classify(fv)).push(
                    spec_classify(x),
                ));
            } else {
                assert(a.push(x).filter(
                    |fv: SqlFileView| spec_has_known_prefix(fv.file_name),
                ) == pref);
            }
            assert(input@ =~= orig.subrange(orig.len() - input@.len(), orig.len() as int));
        }
        match classified {
            Some(c) => {
                r.push(c);
                proof {
                    assert(views_of(r@) =~= views_of(r0).push(spec_classify(orig[k]@)));
                }
            },
            None => {},
        }
    }
    proof {
        assert(orig.subrange(0, orig.len() as int) =~= orig);
    }
    r
}

proof fn lemma_v_filter_multiset(s: Seq<SqlInnerFileView>)
    ensures
        forall|x: SqlInnerFileView|
            #[trigger] spec_v_filter(s).to_multiset().count(x) == (if spec_is_v(x.file_name) {
                s.to_multiset().count(x)
            } else {
                0
            }),
    decreases s.len(),
{
    reveal(Seq::filter);
    broadcast use vstd::seq_lib::group_to_multiset_ensures;

    if s.len() == 0 {
        assert forall|x: SqlInnerFileView| #[trigger] spec_v_filter(s).to_multiset().count(x)
            == (if spec_is_v(x.file_name) {
            s.to_multiset().count(x)
        } else {
            0
        }) by {
            assert(spec_v_filter(s) == s);
            assert(!s.contains(x));
            assert(s.to_multiset().count(x) == 0);
        }
    } else {
        let t = s.drop_last();
        let l = s.last();
        lemma_v_filter_multiset(t);
        assert(s =~= t.push(l));
        assert(s.to_multiset() =~= t.to_multiset().insert(l));
        if spec_is_v(l.file_name) {
            assert(spec_v_filter(s) == spec_v_filter(t).push(l));
            assert(spec_v_filter(s).to_multiset() =~= spec_v_filter(t).to_multiset().insert(l));
        } else {
            assert(spec_v_filter(s) == spec_v_filter(t));
        }
    }
}

/// Sequences with the same multiset of elements have the same multiset of
/// forward-versioned elements.
pub proof fn lemma_v_filter_multiset_eq(a: Seq<SqlInnerFileView>, b: Seq<SqlInnerFileView>)
    requires
        a.to_multiset() == b.to_multiset(),
    ensures
        spec_v_filter(a).to_multiset() == spec_v_filter(b).to_multiset(),
{
    lemma_v_filter_multiset(a);
    lemma_v_filter_multiset(b);
    assert(spec_v_filter(a).to_multiset() =~= spec_v_filter(b).to_multiset());
}


proof fn lemma_v_filter_subset(t: Seq<SqlInnerFileView>)
    ensures
        forall|i: int|
            0 <= i < spec_v_filter(t).len() ==> t.contains(#[trigger] spec_v_filter(t)[i]),
    decreases t.len(),
{
    reveal(Seq::filter);
    if t.len() == 0 {
    } else {
        let d = t.drop_last();
        let l = t.last();
        lemma_v_filter_subset(d);
        assert forall|i: int| 0 <= i < spec_v_filter(t).len() implies t.contains(
            #[trigger] spec_v_filter(t)[i],
        ) by {
            let fd = spec_v_filter(d);
            if i < fd.len() {
                assert(spec_v_filter(t)[i] == fd[i]);
                assert(d.contains(fd[i]));
                let k = choose|k: int| 0 <= k < d.len() && d[k] == fd[i];
                assert(t[k] == d[k]);
            } else {
                assert(spec_v_filter(t)[i] == l);
                assert(t[t.len() - 1] == l);
            }
        }
    }
}

/// Filtering to the forward-versioned subset keeps a sorted sequence
/// sorted.
pub proof fn lemma_v_filter_sorted(s: Seq<SqlInnerFileView>)
    requires
        spec_views_sorted(s),
    ensures
        spec_views_sorted(spec_v_filter(s)),
    decreases s.len(),
{
    reveal(Seq::filter);
    if s.len() == 0 {
    } else {
        let t = s.drop_last();
        let l = s.last();
        assert(spec_views_sorted(t)) by {
            assert forall|i: int, j: int| 0 <= i < j < t.len() implies #[trigger] spec_file_le(
                t[i].file_name,
                t[j].file_name,
            ) by {
                assert(t[i] == s[i]);
                assert(t[j] == s[j]);
            }
        }
        lemma_v_filter_sorted(t);
        if spec_is_v(l.file_name) {
            assert(spec_v_filter(s) == spec_v_filter(t).push(l));
            let ft = spec_v_filter(t);
            assert forall|i: int, j: int| 0 <= i < j < ft.push(l).len() implies
                #[trigger] spec_file_le(ft.push(l)[i].file_name, ft.push(l)[j].file_name) by {
                if j < ft.len() {
                    assert(ft.push(l)[i] == ft[i]);
                    assert(ft.push(l)[j] == ft[j]);
                } else {
                    assert(ft.push(l)[j] == l);
                    assert(ft.push(l)[i] == ft[i]);
                    lemma_v_filter_subset(t);
                    assert(t.contains(ft[i]));
                    let k = choose|k: int| 0 <= k < t.len() && t[k] == ft[i];
                    assert(s[k] == t[k]);
                    assert(spec_file_le(s[k].file_name, s[s.len() - 1].file_name));
                }
            }
        } else {
            assert(spec_v_filter(s) == spec_v_filter(t));
        }
    }
}

/// The file name carries the `.sql` extension, compared without regard to
/// case: a last dot, not the leading character, followed by exactly `sql`.
pub open spec fn spec_has_sql_extension(name: Seq<char>) -> bool {
    &&& name.len() >= 5
    &&& name[name.len() - 4] == '.'
    &&& (name[name.len() - 3] == 's' || name[name.len() - 3] == 'S')
    &&& (name[name.len() - 2] == 'q' || name[name.len() - 2] == 'Q')
    &&& (name[name.len() - 1] == 'l' || name[name.len() - 1] == 'L')
}

/// Decides whether a file name names an SQL script: its extension,
/// case-insensitive, equals `sql`.
pub fn has_sql_extension(name: &str) -> (r: bool)
    ensures
        r == spec_has_sql_extension(name@),
{
    let nv = str_chars(name);
    let n = nv.len();
    if n < 5 {
        return false;
    }
    let dot = nv[n - 4];
    let c1 = nv[n - 3];
    let c2 = nv[n - 2];
    let c3 = nv[n - 1];
    dot == '.' && (c1 == 's' || c1 == 'S') && (c2 == 'q' || c2 == 'Q') && (c3 == 'l' || c3
        == 'L')
}

} // verus!
