//! The icon catalog: a closed, immutable registry built once from a
//! directory listing. Every asset file contributes one identifier with a
//! canonical name, a lookup path and an identifier token; names and paths
//! are unique, and the enumeration order is the byte-wise ascending order
//! of the source filenames.

use vstd::prelude::*;
use crate::text::{
    chars_le, chars_to_string, lemma_lex_le_total, lemma_lex_le_total_ordering,
    lemma_lex_le_transitive, lex_le, lex_leq_fn, lower, str_chars, to_lower_chars, to_upper_char,
    upper_of,
};
use vstd::multiset::Multiset;

verus! {

/// One icon of the closed catalog: a dense index into the catalog's
/// entry table. The whole identifier space is fixed when the catalog is
/// built; identifiers order by build-time position.
#[derive(Clone, Copy, PartialEq, Eq, Structural, Hash, Debug, PartialOrd, Ord)]
pub struct IconId {
    pub index: usize,
}

/// One generated catalog row.
pub struct CatalogEntry {
    /// The source filename the entry was generated from.
    pub file: String,
    /// The canonical name: the case-folded base name of the source file.
    pub name: String,
    /// Where the asset's bytes are looked up: `icons/<name>.svg`.
    pub path: String,
    /// An identifier token naming the entry in generated code.
    pub token: String,
}

/// The closed registry of icons. Read-only after construction.
pub struct IconCatalog {
    pub entries: Vec<CatalogEntry>,
}

/// A separator inside a name: a word break the camel-casing collapses.
pub open spec fn is_sep(c: char) -> bool {
    c == '-' || c == '_'
}

pub open spec fn is_ascii_alpha(c: char) -> bool {
    ('a' <= c && c <= 'z') || ('A' <= c && c <= 'Z')
}

/// Camel-cases a name: separators are dropped, and a character that
/// follows the start of the name or a separator is upper-cased.
pub open spec fn camel(s: Seq<char>, boundary: bool) -> Seq<char>
    decreases s.len(),
{
    if s.len() == 0 {
        Seq::empty()
    } else if is_sep(s[0]) {
        camel(s.drop_first(), true)
    } else {
        seq![if boundary { upper_of(s[0]) } else { s[0] }] + camel(s.drop_first(), false)
    }
}

/// The identifier token of a canonical name: its camel-cased form,
/// prefixed with the sentinel letter `N` when it would not start with an
/// ASCII letter.
pub open spec fn token_of(name: Seq<char>) -> Seq<char> {
    let t = camel(name, true);
    if t.len() == 0 || !is_ascii_alpha(t[0]) {
        seq!['N'] + t
    } else {
        t
    }
}

/// The recognized asset extension, as a character sequence.
pub open spec fn svg_suffix() -> Seq<char> {
    seq!['.', 's', 'v', 'g']
}

/// A filename the catalog builder recognizes as an asset: a non-empty
/// base name followed by `.svg`.
pub open spec fn is_asset(f: Seq<char>) -> bool {
    f.len() > 4 && f.subrange(f.len() - 4, f.len() as int) == svg_suffix()
}

/// The base name of an asset filename.
pub open spec fn stem_of(f: Seq<char>) -> Seq<char> {
    f.subrange(0, f.len() - 4)
}

/// The canonical name an asset filename derives: its case-folded base name.
pub open spec fn canonical_of(f: Seq<char>) -> Seq<char> {
    lower(stem_of(f))
}

/// The lookup path a canonical name derives: `icons/<name>.svg`.
pub open spec fn path_of(name: Seq<char>) -> Seq<char> {
    seq!['i', 'c', 'o', 'n', 's', '/'] + name + svg_suffix()
}

impl IconCatalog {
    /// The source filenames, in catalog order.
    pub open spec fn files(&self) -> Seq<Seq<char>> {
        self.entries@.map_values(|e: CatalogEntry| e.file@)
    }

    /// The canonical names, in catalog order.
    pub open spec fn names(&self) -> Seq<Seq<char>> {
        self.entries@.map_values(|e: CatalogEntry| e.name@)
    }

    /// The lookup paths, in catalog order.
    pub open spec fn paths(&self) -> Seq<Seq<char>> {
        self.entries@.map_values(|e: CatalogEntry| e.path@)
    }

    /// What construction guarantees of every catalog: each row is derived
    /// from its source filename, rows are sorted by source filename, and
    /// canonical names are pairwise distinct.
    pub open spec fn wf(&self) -> bool {
        &&& forall|i: int|
            0 <= i < self.entries@.len() ==> {
                &&& is_asset(#[trigger] self.entries@[i].file@)
                &&& self.entries@[i].name@ == canonical_of(self.entries@[i].file@)
                &&& self.entries@[i].path@ == path_of(self.entries@[i].name@)
                &&& self.entries@[i].token@ == token_of(self.entries@[i].name@)
            }
        &&& forall|i: int, j: int|
            0 <= i < j < self.entries@.len() ==> lex_le(
                #[trigger] self.entries@[i].file@,
                #[trigger] self.entries@[j].file@,
            )
        &&& forall|i: int, j: int|
            0 <= i < self.entries@.len() && 0 <= j < self.entries@.len() && i != j
                ==> #[trigger] self.entries@[i].name@ != #[trigger] self.entries@[j].name@
    }

    /// How many icons the catalog holds.
    pub fn count(&self) -> (r: usize)
        ensures
            r == self.entries@.len(),
    {
        self.entries.len()
    }

    /// The canonical name of one icon.
    pub fn canonical_name(&self, id: IconId) -> (r: String)
        requires
            id.index < self.entries@.len(),
        ensures
            r@ == self.names()[id.index as int],
    {
        self.entries[id.index].name.clone()
    }

    /// The lookup path of one icon.
    pub fn lookup_path(&self, id: IconId) -> (r: String)
        requires
            id.index < self.entries@.len(),
        ensures
            r@ == self.paths()[id.index as int],
    {
        self.entries[id.index].path.clone()
    }

    /// The identifier token of one icon.
    pub fn identifier_token(&self, id: IconId) -> (r: String)
        requires
            self.wf(),
            id.index < self.entries@.len(),
        ensures
            r@ == token_of(self.names()[id.index as int]),
    {
        proof {
            assert(is_asset(self.entries@[id.index as int].file@));
            assert(self.names()[id.index as int] == self.entries@[id.index as int].name@);
        }
        self.entries[id.index].token.clone()
    }

    /// Every identifier, in build-time order.
    pub fn all(&self) -> (r: Vec<IconId>)
        ensures
            r@.len() == self.entries@.len(),
            forall|k: int| 0 <= k < r@.len() ==> (#[trigger] r@[k]).index == k,
    {
        let n = self.entries.len();
        let mut r: Vec<IconId> = Vec::new();
        let mut i: usize = 0;
        while i < n
            invariant
                i <= n,
                r@.len() == i,
                forall|k: int| 0 <= k < i ==> (#[trigger] r@[k]).index == k,
            decreases n - i,
        {
            r.push(IconId { index: i });
            i += 1;
        }
        r
    }
}

/// Camel-cases a name, starting at a word boundary.
fn camel_chars(s: &Vec<char>) -> (r: Vec<char>)
    ensures
        r@ == camel(s@, true),
{
    let mut r: Vec<char> = Vec::new();
    let mut boundary = true;
    let mut i: usize = 0;
    proof {
        assert(s@.skip(0) =~= s@);
    }
    while i < s.len()
        invariant
            i <= s@.len(),
            camel(s@, true) == r@ + camel(s@.skip(i as int), boundary),
        decreases s@.len() - i,
    {
        let c = s[i];
        proof {
            assert(s@.skip(i as int)[0] == s@[i as int]);
            assert(s@.skip(i as int).drop_first() =~= s@.skip(i + 1));
        }
        let ghost prev = r@;
        let ghost prev_b = boundary;
        if c == '-' || c == '_' {
            boundary = true;
        } else {
            if boundary {
                r.push(to_upper_char(c));
            } else {
                r.push(c);
            }
            boundary = false;
            proof {
                assert(prev + camel(s@.skip(i as int), prev_b) =~= r@ + camel(
                    s@.skip(i + 1),
                    false,
                ));
            }
        }
        i += 1;
    }
    proof {
        assert(s@.skip(s@.len() as int) =~= Seq::<char>::empty());
        assert(r@ =~= camel(s@, true));
    }
    r
}

/// Derives the identifier token of a canonical name.
fn token_chars(name: &Vec<char>) -> (r: Vec<char>)
    ensures
        r@ == token_of(name@),
{
    let t = camel_chars(name);
    let needs_sentinel = if t.len() == 0 {
        true
    } else {
        let c0 = t[0];
        !(('a' <= c0 && c0 <= 'z') || ('A' <= c0 && c0 <= 'Z'))
    };
    if needs_sentinel {
        let mut r: Vec<char> = Vec::new();
        r.push('N');
        let mut i: usize = 0;
        while i < t.len()
            invariant
                i <= t@.len(),
                r@ == seq!['N'] + t@.subrange(0, i as int),
            decreases t@.len() - i,
        {
            r.push(t[i]);
            i += 1;
            assert(r@ =~= seq!['N'] + t@.subrange(0, i as int));
        }
        proof {
            assert(t@.subrange(0, t@.len() as int) =~= t@);
        }
        r
    } else {
        t
    }
}

/// Derives the lookup path of a canonical name.
fn path_chars(name: &Vec<char>) -> (r: Vec<char>)
    ensures
        r@ == path_of(name@),
{
    let mut r: Vec<char> = Vec::new();
    r.push('i');
    r.push('c');
    r.push('o');
    r.push('n');
    r.push('s');
    r.push('/');
    proof {
        assert(r@ =~= seq!['i', 'c', 'o', 'n', 's', '/']);
    }
    let mut i: usize = 0;
    while i < name.len()
        invariant
            i <= name@.len(),
            r@ == seq!['i', 'c', 'o', 'n', 's', '/'] + name@.subrange(0, i as int),
        decreases name@.len() - i,
    {
        r.push(name[i]);
        i += 1;
        assert(r@ =~= seq!['i', 'c', 'o', 'n', 's', '/'] + name@.subrange(0, i as int));
    }
    proof {
        assert(name@.subrange(0, name@.len() as int) =~= name@);
    }
    r.push('.');
    r.push('s');
    r.push('v');
    r.push('g');
    proof {
        assert(r@ =~= path_of(name@));
    }
    r
}

/// Decides whether a filename is a recognized asset.
fn is_asset_file(f: &Vec<char>) -> (r: bool)
    ensures
        r == is_asset(f@),
{
    let n = f.len();
    if n <= 4 {
        return false;
    }
    let ok = f[n - 4] == '.' && f[n - 3] == 's' && f[n - 2] == 'v' && f[n - 1] == 'g';
    proof {
        let sub = f@.subrange(n - 4, n as int);
        assert(sub[0] == f@[n - 4]);
        assert(sub[1] == f@[n - 3]);
        assert(sub[2] == f@[n - 2]);
        assert(sub[3] == f@[n - 1]);
        if ok {
            assert(sub =~= svg_suffix());
        }
    }
    ok
}

/// The base name of an asset filename, as characters.
fn stem_chars(f: &Vec<char>) -> (r: Vec<char>)
    requires
        is_asset(f@),
    ensures
        r@ == stem_of(f@),
{
    let n = f.len();
    let mut r: Vec<char> = Vec::new();
    let mut i: usize = 0;
    while i < n - 4
        invariant
            n == f@.len(),
            4 < n <= usize::MAX,
            i <= n - 4,
            r@ == f@.subrange(0, i as int),
        decreases n - 4 - i,
    {
        r.push(f[i]);
        i += 1;
        assert(r@ =~= f@.subrange(0, i as int));
    }
    r
}

/// The views of a sequence of character vectors.
pub open spec fn views(v: Seq<Vec<char>>) -> Seq<Seq<char>> {
    v.map_values(|e: Vec<char>| e@)
}

/// The position at which `x` is slotted into the sorted run `out`: the
/// first index whose element does not order at or before `x`.
fn insert_position(out: &Vec<Vec<char>>, x: &Vec<char>) -> (pos: usize)
    ensures
        pos <= out@.len(),
        forall|k: int| 0 <= k < pos ==> lex_le(views(out@)[k], x@),
        pos < out@.len() ==> !lex_le(views(out@)[pos as int], x@),
{
    let mut pos: usize = 0;
    while pos < out.len()
        invariant
            pos <= out@.len(),
            forall|k: int| 0 <= k < pos ==> lex_le(views(out@)[k], x@),
        decreases out@.len() - pos,
    {
        if !chars_le(&out[pos], x) {
            return pos;
        }
        pos += 1;
    }
    pos
}

/// Sorts filenames into byte-wise ascending order.
fn sort_filenames(v: Vec<Vec<char>>) -> (r: Vec<Vec<char>>)
    ensures
        views(r@) == views(v@).sort_by(lex_leq_fn()),
{
    let ghost orig = views(v@);
    let mut src = v;
    let mut out: Vec<Vec<char>> = Vec::new();
    proof {
        broadcast use vstd::seq_lib::group_to_multiset_ensures;
        broadcast use vstd::multiset::group_multiset_axioms;

        assert(views(out@) =~= Seq::<Seq<char>>::empty());
        assert(views(out@).to_multiset().len() == 0);
        assert(views(out@).to_multiset() =~= Multiset::<Seq<char>>::empty());
        assert(views(src@) =~= orig);
        assert(views(out@).to_multiset().add(views(src@).to_multiset()) =~= orig.to_multiset());
    }
    while src.len() > 0
        invariant
            vstd::relations::sorted_by(views(out@), lex_leq_fn()),
            views(out@).to_multiset().add(views(src@).to_multiset()) == orig.to_multiset(),
        decreases src@.len(),
    {
        let ghost src_before = views(src@);
        let x = src.pop().unwrap();
        proof {
            broadcast use vstd::seq_lib::group_to_multiset_ensures;
            assert(views(src@).push(x@) =~= src_before);
        }
        let pos = insert_position(&out, &x);
        let ghost out_before = views(out@);
        let ghost inserted = out_before.insert(pos as int, x@);
        proof {
            if pos < out_before.len() {
                assert(!lex_le(out_before[pos as int], x@));
                lemma_lex_le_total(out_before[pos as int], x@);
            }
            // the inserted sequence is still sorted
            assert forall|i: int, j: int| 0 <= i < j < inserted.len() implies lex_leq_fn()(
                inserted[i],
                inserted[j],
            ) by {
                let p = pos as int;
                if j < p {
                } else if i < p && j == p {
                    assert(inserted[j] == x@);
                } else if i < p && j > p {
                    assert(inserted[j] == out_before[j - 1]);
                } else if i == p && j > p {
                    assert(inserted[i] == x@);
                    assert(inserted[j] == out_before[j - 1]);
                    if p < out_before.len() {
                        if j - 1 > p {
                            assert(lex_leq_fn()(out_before[p], out_before[j - 1]));
                            lemma_lex_le_transitive(x@, out_before[p], out_before[j - 1]);
                        }
                    }
                } else {
                    assert(inserted[i] == out_before[i - 1]);
                    assert(inserted[j] == out_before[j - 1]);
                }
            }
            // the multiset gains exactly x
            broadcast use vstd::seq_lib::group_to_multiset_ensures;
            assert(out_before.insert(pos as int, x@) =~= out_before.take(pos as int) + seq![x@]
                + out_before.skip(pos as int));
            vstd::seq_lib::lemma_multiset_commutative(
                out_before.take(pos as int) + seq![x@],
                out_before.skip(pos as int),
            );
            vstd::seq_lib::lemma_multiset_commutative(out_before.take(pos as int), seq![x@]);
            assert(out_before.take(pos as int) + out_before.skip(pos as int) =~= out_before);
            vstd::seq_lib::lemma_multiset_commutative(
                out_before.take(pos as int),
                out_before.skip(pos as int),
            );
            assert(seq![x@].to_multiset() =~= Multiset::<Seq<char>>::empty().insert(x@)) by {
                assert(seq![x@].drop_first() =~= Seq::<Seq<char>>::empty());
            }
            assert(inserted.to_multiset() =~= out_before.to_multiset().insert(x@));
        }
        out.insert(pos, x);
        proof {
            assert(views(out@) =~= inserted);
            broadcast use vstd::seq_lib::group_to_multiset_ensures;
            assert(src_before.to_multiset() =~= views(src@).to_multiset().insert(x@));
            assert(views(out@).to_multiset().add(views(src@).to_multiset()) =~= orig.to_multiset());
        }
    }
    proof {
        assert(views(src@).to_multiset().len() == 0) by {
            broadcast use vstd::seq_lib::group_to_multiset_ensures;
        }
        assert(views(out@).to_multiset() =~= orig.to_multiset());
        lemma_lex_le_total_ordering();
        orig.lemma_sort_by_ensures(lex_leq_fn());
        vstd::seq_lib::lemma_sorted_unique(
            views(out@),
            orig.sort_by(lex_leq_fn()),
            lex_leq_fn(),
        );
        assert(views(out@) =~= orig.sort_by(lex_leq_fn()));
    }
    out
}

/// The recognized asset filenames of a directory listing, in their given
/// order.
pub open spec fn asset_files(files: Seq<Seq<char>>) -> Seq<Seq<char>>
    decreases files.len(),
{
    if files.len() == 0 {
        Seq::empty()
    } else {
        asset_files(files.drop_last()) + if is_asset(files.last()) {
            seq![files.last()]
        } else {
            Seq::empty()
        }
    }
}

/// The catalog order of a directory listing: its recognized asset
/// filenames, sorted byte-wise ascending.
pub open spec fn sorted_assets(files: Seq<Seq<char>>) -> Seq<Seq<char>> {
    asset_files(files).sort_by(lex_leq_fn())
}

/// Two distinct positions of `s` collide when they derive the same
/// canonical name.
pub open spec fn has_collision(s: Seq<Seq<char>>) -> bool {
    exists|i: int, j: int| 0 <= i < j < s.len() && canonical_of(s[i]) == canonical_of(s[j])
}

/// Why catalog generation halted. Generation is all-or-nothing: an
/// ambiguous catalog is never produced.
#[derive(Debug)]
pub enum CatalogError {
    /// Two distinct source files derive the same canonical name.
    DuplicateName { name: String },
}

impl CatalogError {
    /// The duplicated canonical name this error reports.
    pub fn duplicate_name(&self) -> (r: &String)
        ensures
            self matches CatalogError::DuplicateName { name } && r@ == name@,
    {
        match self {
            CatalogError::DuplicateName { name } => name,
        }
    }
}

/// Every recognized filename is an asset.
proof fn lemma_asset_files_all_assets(files: Seq<Seq<char>>)
    ensures
        forall|k: int|
            0 <= k < asset_files(files).len() ==> is_asset(#[trigger] asset_files(files)[k]),
    decreases files.len(),
{
    if files.len() > 0 {
        lemma_asset_files_all_assets(files.drop_last());
        let a = asset_files(files);
        let p = asset_files(files.drop_last());
        assert forall|k: int| 0 <= k < a.len() implies is_asset(#[trigger] a[k]) by {
            if k < p.len() {
                assert(a[k] == p[k]);
            } else {
                assert(a[k] == files.last());
            }
        }
    }
}

/// Builds the catalog from a directory listing. Filenames with the
/// recognized asset extension are sorted byte-wise ascending; each derives
/// one entry. Fails, producing no catalog at all, exactly when two
/// distinct source files derive the same canonical name.
pub fn build_catalog(files: &Vec<String>) -> (r: Result<IconCatalog, CatalogError>)
    ensures
        match r {
            Ok(c) => {
                &&& c.wf()
                &&& c.files() == sorted_assets(files.deep_view())
                &&& c.entries@.len() == asset_files(files.deep_view()).len()
                &&& !has_collision(sorted_assets(files.deep_view()))
            },
            Err(e) => {
                &&& has_collision(sorted_assets(files.deep_view()))
                &&& match e {
                    CatalogError::DuplicateName { name } => exists|i: int, j: int|
                        0 <= i < j < sorted_assets(files.deep_view()).len()
                            && canonical_of(sorted_assets(files.deep_view())[i]) == canonical_of(
                            sorted_assets(files.deep_view())[j],
                        ) && name@ == canonical_of(sorted_assets(files.deep_view())[i]),
                }
            },
        },
{
    let ghost fv = files.deep_view();
    // recognize the asset files, in listing order
    let mut assets: Vec<Vec<char>> = Vec::new();
    let mut i: usize = 0;
    proof {
        assert(fv.subrange(0, 0) =~= Seq::<Seq<char>>::empty());
        assert(views(assets@) =~= asset_files(fv.subrange(0, 0)));
    }
    while i < files.len()
        invariant
            i <= files@.len(),
            fv == files.deep_view(),
            fv.len() == files@.len(),
            views(assets@) == asset_files(fv.subrange(0, i as int)),
        decreases files@.len() - i,
    {
        let cs = str_chars(files[i].as_str());
        proof {
            assert(fv[i as int] == files@[i as int]@);
        }
        let ghost prev = views(assets@);
        if is_asset_file(&cs) {
            assets.push(cs);
        }
        proof {
            let pre = fv.subrange(0, i as int);
            let post = fv.subrange(0, i + 1);
            assert(post.drop_last() =~= pre);
            assert(post.last() == fv[i as int]);
            if is_asset(fv[i as int]) {
                assert(views(assets@) =~= prev + seq![fv[i as int]]);
            } else {
                assert(views(assets@) =~= prev + Seq::<Seq<char>>::empty());
            }
        }
        i += 1;
    }
    proof {
        assert(fv.subrange(0, fv.len() as int) =~= fv);
    }
    // deterministic order: sort by source filename
    let sorted = sort_filenames(assets);
    let ghost sv = views(sorted@);
    proof {
        broadcast use vstd::seq_lib::group_to_multiset_ensures;

        lemma_lex_le_total_ordering();
        asset_files(fv).lemma_sort_by_ensures(lex_leq_fn());
        lemma_asset_files_all_assets(fv);
        assert(sv == sorted_assets(fv));
        assert(sv.to_multiset() == asset_files(fv).to_multiset());
        assert(sv.len() == sv.to_multiset().len());
        assert(asset_files(fv).len() == asset_files(fv).to_multiset().len());
        assert(sv.len() == asset_files(fv).len());
        assert forall|k: int| 0 <= k < sv.len() implies is_asset(#[trigger] sv[k]) by {
            assert(sv.contains(sv[k]));
            assert(asset_files(fv).contains(sv[k]));
        }
    }
    let ghost asset_count = asset_files(fv).len();
    // derive the canonical names
    let n = sorted.len();
    let mut names: Vec<Vec<char>> = Vec::new();
    let mut k: usize = 0;
    while k < n
        invariant
            k <= n,
            n == sorted@.len(),
            sv == views(sorted@),
            forall|m: int| 0 <= m < sv.len() ==> is_asset(#[trigger] sv[m]),
            names@.len() == k,
            forall|m: int| 0 <= m < k ==> (#[trigger] names@[m])@ == canonical_of(sv[m]),
        decreases n - k,
    {
        proof {
            assert(is_asset(sv[k as int]));
        }
        let stem = stem_chars(&sorted[k]);
        let name = to_lower_chars(&stem);
        names.push(name);
        k += 1;
    }
    // halt on a canonical-name collision
    let mut hi: usize = 1;
    while hi < n
        invariant
            fv == files.deep_view(),
            n == sorted@.len(),
            sv == views(sorted@),
            sv == sorted_assets(fv),
            names@.len() == n,
            forall|m: int| 0 <= m < n ==> (#[trigger] names@[m])@ == canonical_of(sv[m]),
            1 <= hi,
            forall|a: int, b: int| 0 <= a < b < hi ==> canonical_of(sv[a]) != canonical_of(sv[b]),
        decreases n - hi,
    {
        let mut lo: usize = 0;
        while lo < hi
            invariant
                fv == files.deep_view(),
                n == sorted@.len(),
                sv == views(sorted@),
                sv == sorted_assets(fv),
                names@.len() == n,
                hi < n,
                forall|m: int| 0 <= m < n ==> (#[trigger] names@[m])@ == canonical_of(sv[m]),
                lo <= hi,
                forall|a: int| 0 <= a < lo ==> canonical_of(sv[a]) != canonical_of(sv[hi as int]),
            decreases hi - lo,
        {
            if crate::text::chars_eq(&names[lo], &names[hi]) {
                proof {
                    assert(names@[lo as int]@ == canonical_of(sv[lo as int]));
                    assert(names@[hi as int]@ == canonical_of(sv[hi as int]));
                    assert(canonical_of(sv[lo as int]) == canonical_of(sv[hi as int]));
                    assert(has_collision(sv));
                }
                let name = chars_to_string(&names[hi]);
                return Err(CatalogError::DuplicateName { name });
            }
            lo += 1;
        }
        hi += 1;
    }
    assert(!has_collision(sv));
    // generate the entries
    let mut entries: Vec<CatalogEntry> = Vec::new();
    let mut k: usize = 0;
    while k < n
        invariant
            k <= n,
            fv == files.deep_view(),
            n == sorted@.len(),
            sv == views(sorted@),
            sv == sorted_assets(fv),
            sv.len() == asset_count,
            asset_count == asset_files(fv).len(),
            forall|a: int, b: int| 0 <= a < b < n ==> canonical_of(sv[a]) != canonical_of(sv[b]),
            vstd::relations::sorted_by(sv, lex_leq_fn()),
            names@.len() == n,
            forall|m: int| 0 <= m < n ==> is_asset(#[trigger] sv[m]),
            forall|m: int| 0 <= m < n ==> (#[trigger] names@[m])@ == canonical_of(sv[m]),
            entries@.len() == k,
            forall|m: int|
                0 <= m < k ==> {
                    &&& (#[trigger] entries@[m]).file@ == sv[m]
                    &&& entries@[m].name@ == canonical_of(sv[m])
                    &&& entries@[m].path@ == path_of(entries@[m].name@)
                    &&& entries@[m].token@ == token_of(entries@[m].name@)
                },
        decreases n - k,
    {
        let file = chars_to_string(&sorted[k]);
        let name_chars = &names[k];
        let name = chars_to_string(name_chars);
        let path = chars_to_string(&path_chars(name_chars));
        let token = chars_to_string(&token_chars(name_chars));
        entries.push(CatalogEntry { file, name, path, token });
        k += 1;
    }
    let catalog = IconCatalog { entries };
    proof {
        assert(catalog.files() =~= sv);
        assert forall|a: int, b: int|
            0 <= a < catalog.entries@.len() && 0 <= b < catalog.entries@.len() && a != b
            implies #[trigger] catalog.entries@[a].name@ != #[trigger] catalog.entries@[b].name@ by {
            if a < b {
                assert(canonical_of(sv[a]) != canonical_of(sv[b]));
            } else {
                assert(canonical_of(sv[b]) != canonical_of(sv[a]));
            }
        }
        assert forall|a: int, b: int| 0 <= a < b < catalog.entries@.len() implies lex_le(
            #[trigger] catalog.entries@[a].file@,
            #[trigger] catalog.entries@[b].file@,
        ) by {
            assert(lex_leq_fn()(sv[a], sv[b]));
        }
    }
    Ok(catalog)
}

/// Distinct canonical names derive distinct lookup paths: the path is the
/// name between a fixed prefix and suffix, so equal paths force equal
/// names. With `wf`, paths are pairwise unique across the catalog.
pub proof fn lemma_paths_unique(c: IconCatalog)
    requires
        c.wf(),
    ensures
        forall|i: int, j: int|
            0 <= i < c.entries@.len() && 0 <= j < c.entries@.len() && i != j
                ==> #[trigger] c.paths()[i] != #[trigger] c.paths()[j],
{
    assert forall|i: int, j: int|
        0 <= i < c.entries@.len() && 0 <= j < c.entries@.len() && i != j
        implies #[trigger] c.paths()[i] != #[trigger] c.paths()[j] by {
        let ni = c.entries@[i].name@;
        let nj = c.entries@[j].name@;
        assert(is_asset(c.entries@[i].file@));
        assert(is_asset(c.entries@[j].file@));
        assert(c.paths()[i] == path_of(ni));
        assert(c.paths()[j] == path_of(nj));
        assert(ni != nj);
        if path_of(ni) == path_of(nj) {
            assert(ni.len() == nj.len());
            assert(ni =~= nj) by {
                assert forall|k: int| 0 <= k < ni.len() implies ni[k] == nj[k] by {
                    assert(path_of(ni)[k + 6] == ni[k]);
                    assert(path_of(nj)[k + 6] == nj[k]);
                }
            }
        }
    }
}

} // verus!
