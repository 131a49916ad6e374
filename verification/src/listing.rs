//! The application listing a desktop surface displays: every manifest
//! file that parses to a valid entry, ordered by display name without
//! regard to letter case.
use vstd::prelude::*;

use crate::environment::pairs_view;
use crate::manifest::AppItem;
use crate::manifest::AppItemModel;
use crate::manifest::parse_ini_app;
use crate::manifest::spec_item_of;
use crate::manifest::spec_parse_manifest;

verus! {

/// What `str::to_lowercase` returns: the lowercase mapping of the
/// characters alone.
pub uninterp spec fn lower_of(s: Seq<char>) -> Seq<char>;

/// Relies on str::to_lowercase: the result is a function of the
/// characters alone, and the empty string stays empty.
#[verifier::external_body]
fn lowercase(s: &str) -> (r: String)
    ensures
        r@ == lower_of(s@),
        s@.len() == 0 ==> r@.len() == 0,
{
    s.to_lowercase()
}

/// Strict lexicographic order on character sequences, by code point; the
/// byte order of encoded strings coincides with it.
pub open spec fn lex_lt(a: Seq<char>, b: Seq<char>) -> bool
    decreases a.len(),
{
    if b.len() == 0 {
        false
    } else if a.len() == 0 {
        true
    } else if a[0] != b[0] {
        (a[0] as u32) < (b[0] as u32)
    } else {
        lex_lt(a.drop_first(), b.drop_first())
    }
}

proof fn lemma_lex_lt_skip(a: Seq<char>, b: Seq<char>, i: int)
    requires
        0 <= i <= a.len(),
        i <= b.len(),
        forall|j: int| 0 <= j < i ==> a[j] == b[j],
    ensures
        lex_lt(a, b) == lex_lt(a.subrange(i, a.len() as int), b.subrange(i, b.len() as int)),
    decreases i,
{
    if i > 0 {
        assert(a[0] == b[0]);
        assert(a.len() > 0 && b.len() > 0);
        assert forall|j: int| 0 <= j < i - 1 implies a.drop_first()[j] == b.drop_first()[j] by {
            assert(a.drop_first()[j] == a[j + 1]);
            assert(b.drop_first()[j] == b[j + 1]);
        }
        lemma_lex_lt_skip(a.drop_first(), b.drop_first(), i - 1);
        assert(a.drop_first().subrange(i - 1, a.drop_first().len() as int) =~= a.subrange(
            i,
            a.len() as int,
        ));
        assert(b.drop_first().subrange(i - 1, b.drop_first().len() as int) =~= b.subrange(
            i,
            b.len() as int,
        ));
    } else {
        assert(a.subrange(0, a.len() as int) =~= a);
        assert(b.subrange(0, b.len() as int) =~= b);
    }
}

/// Exec test for `lex_lt`.
pub fn str_lex_lt(a: &str, b: &str) -> (r: bool)
    ensures
        r == lex_lt(a@, b@),
{
    let la = a.unicode_len();
    let lb = b.unicode_len();
    let mut i: usize = 0;
    loop
        invariant
            la == a@.len(),
            lb == b@.len(),
            i <= la,
            i <= lb,
            forall|j: int| 0 <= j < i ==> a@[j] == b@[j],
        decreases la - i,
    {
        if i >= lb {
            proof {
                lemma_lex_lt_skip(a@, b@, i as int);
            }
            return false;
        }
        if i >= la {
            proof {
                lemma_lex_lt_skip(a@, b@, i as int);
            }
            return true;
        }
        let ca = a.get_char(i);
        let cb = b.get_char(i);
        if ca != cb {
            proof {
                lemma_lex_lt_skip(a@, b@, i as int);
                assert(a@.subrange(i as int, la as int)[0] == ca);
                assert(b@.subrange(i as int, lb as int)[0] == cb);
            }
            return (ca as u32) < (cb as u32);
        }
        i = i + 1;
    }
}

/// An entry sorts before another when its lowercased name is
/// lexicographically smaller.
pub open spec fn item_lt(a: AppItemModel, b: AppItemModel) -> bool {
    lex_lt(lower_of(a.name), lower_of(b.name))
}

/// Inserts an entry into a sorted run, after every entry it does not
/// strictly precede — so entries with equal keys keep their order.
pub open spec fn insert_sorted(x: AppItemModel, s: Seq<AppItemModel>) -> Seq<AppItemModel>
    decreases s.len(),
{
    if s.len() == 0 {
        seq![x]
    } else if item_lt(x, s[0]) {
        seq![x] + s
    } else {
        seq![s[0]] + insert_sorted(x, s.drop_first())
    }
}

/// Stable insertion sort by lowercased display name.
pub open spec fn sort_items(s: Seq<AppItemModel>) -> Seq<AppItemModel>
    decreases s.len(),
{
    if s.len() == 0 {
        Seq::empty()
    } else {
        insert_sorted(s.last(), sort_items(s.drop_last()))
    }
}

/// The views of an entry list.
pub open spec fn items_view(v: Seq<AppItem>) -> Seq<AppItemModel> {
    Seq::new(v.len(), |i: int| v[i]@)
}

/// The valid entries among the given (identifier, manifest text) files,
/// in file order.
pub open spec fn spec_collect(files: Seq<(Seq<char>, Seq<char>)>) -> Seq<AppItemModel>
    decreases files.len(),
{
    if files.len() == 0 {
        Seq::empty()
    } else {
        spec_collect(files.drop_last()) + (match spec_parse_manifest(
            files.last().1,
            files.last().0,
        ) {
            Some(m) => seq![spec_item_of(m)],
            None => Seq::empty(),
        })
    }
}

proof fn lemma_insert_at(x: AppItemModel, s: Seq<AppItemModel>, j: int)
    requires
        0 <= j <= s.len(),
        forall|k: int| 0 <= k < j ==> !item_lt(x, #[trigger] s[k]),
        j < s.len() ==> item_lt(x, s[j]),
    ensures
        insert_sorted(x, s) == s.subrange(0, j) + seq![x] + s.subrange(j, s.len() as int),
    decreases j,
{
    if s.len() == 0 {
        assert(insert_sorted(x, s) =~= s.subrange(0, j) + seq![x] + s.subrange(
            j,
            s.len() as int,
        ));
    } else if j == 0 {
        assert(insert_sorted(x, s) =~= s.subrange(0, 0) + seq![x] + s.subrange(0, s.len() as int));
    } else {
        assert(!item_lt(x, s[0]));
        assert forall|k: int| 0 <= k < j - 1 implies !item_lt(x, #[trigger] s.drop_first()[k]) by {
            assert(s.drop_first()[k] == s[k + 1]);
        }
        if j - 1 < s.drop_first().len() {
            assert(s.drop_first()[j - 1] == s[j]);
        }
        lemma_insert_at(x, s.drop_first(), j - 1);
        assert(seq![s[0]] + (s.drop_first().subrange(0, j - 1) + seq![x]
            + s.drop_first().subrange(j - 1, s.drop_first().len() as int)) =~= s.subrange(0, j)
            + seq![x] + s.subrange(j, s.len() as int));
    }
}

/// A copy of an entry, field by field.
fn clone_item(a: &AppItem) -> (r: AppItem)
    ensures
        r@ == a@,
{
    AppItem {
        name: a.name.clone(),
        icon: a.icon.clone(),
        exec_cmd: a.exec_cmd.clone(),
        app_id: a.app_id.clone(),
        category: a.category.clone(),
    }
}

/// The position where an entry with lowercased name `key` is inserted:
/// after every entry it does not strictly precede.
fn find_insert_pos(out: &Vec<AppItem>, key: &String) -> (j: usize)
    ensures
        j <= out@.len(),
        forall|q: int| 0 <= q < j ==> !lex_lt(key@, lower_of((#[trigger] out@[q]).name@)),
        j < out@.len() ==> lex_lt(key@, lower_of(out@[j as int].name@)),
{
    let mut j: usize = 0;
    while j < out.len()
        invariant
            j <= out@.len(),
            forall|q: int| 0 <= q < j ==> !lex_lt(key@, lower_of((#[trigger] out@[q]).name@)),
        decreases out@.len() - j,
    {
        let other_key = lowercase(out[j].name.as_str());
        if str_lex_lt(key.as_str(), other_key.as_str()) {
            return j;
        }
        j = j + 1;
    }
    j
}

/// The displayable entries of every given manifest file, sorted by
/// display name without regard to letter case. Each file pairs the
/// application identifier (the file name stem) with the file's text;
/// files whose manifest is rejected are left out.
pub fn get_default_items(files: Vec<(String, String)>) -> (r: Vec<AppItem>)
    ensures
        items_view(r@) == sort_items(spec_collect(pairs_view(files@))),
{
    let ghost fv = pairs_view(files@);
    let mut collected: Vec<AppItem> = Vec::new();
    let mut i: usize = 0;
    proof {
        assert(fv.subrange(0, 0).len() == 0);
        assert(items_view(collected@) =~= spec_collect(fv.subrange(0, 0)));
    }
    while i < files.len()
        invariant
            fv == pairs_view(files@),
            fv.len() == files@.len(),
            i <= files@.len(),
            items_view(collected@) == spec_collect(fv.subrange(0, i as int)),
        decreases files@.len() - i,
    {
        let ghost prev = items_view(collected@);
        let entry = &files[i];
        proof {
            assert(fv[i as int] == (entry.0@, entry.1@));
            assert(fv.subrange(0, i + 1).drop_last() =~= fv.subrange(0, i as int));
            assert(fv.subrange(0, i + 1).last() == fv[i as int]);
        }
        match parse_ini_app(entry.1.as_str(), entry.0.as_str()) {
            Some(item) => {
                collected.push(item);
                proof {
                    assert(items_view(collected@) =~= prev + seq![collected@.last()@]);
                }
            },
            None => {
                proof {
                    assert(prev + Seq::<AppItemModel>::empty() =~= prev);
                }
            },
        }
        i = i + 1;
    }
    proof {
        assert(fv.subrange(0, fv.len() as int) =~= fv);
    }
    let ghost cv = items_view(collected@);
    let mut out: Vec<AppItem> = Vec::new();
    let mut k: usize = 0;
    proof {
        assert(cv.subrange(0, 0).len() == 0);
        assert(items_view(out@) =~= sort_items(cv.subrange(0, 0)));
    }
    while k < collected.len()
        invariant
            cv == items_view(collected@),
            cv.len() == collected@.len(),
            k <= collected@.len(),
            items_view(out@) == sort_items(cv.subrange(0, k as int)),
        decreases collected@.len() - k,
    {
        let item = clone_item(&collected[k]);
        proof {
            assert(collected@[k as int]@ == cv[k as int]);
        }
        let key = lowercase(item.name.as_str());
        let ghost ov = items_view(out@);
        let j = find_insert_pos(&out, &key);
        proof {
            assert forall|q: int| 0 <= q < j implies !item_lt(item@, #[trigger] ov[q]) by {
                assert(ov[q] == out@[q]@);
            }
            if j < out@.len() {
                assert(ov[j as int] == out@[j as int]@);
                assert(item_lt(item@, ov[j as int]));
            }
        }
        proof {
            assert(cv.subrange(0, k + 1).drop_last() =~= cv.subrange(0, k as int));
            assert(cv.subrange(0, k + 1).last() == cv[k as int]);
        }
        out.insert(j, item);
        proof {
            lemma_insert_at(cv[k as int], ov, j as int);
            assert(items_view(out@) =~= ov.subrange(0, j as int) + seq![cv[k as int]]
                + ov.subrange(j as int, ov.len() as int));
        }
        k = k + 1;
    }
    proof {
        assert(cv.subrange(0, cv.len() as int) =~= cv);
    }
    out
}

} // verus!
