//! The reference manual of the language: one page for each keyword.
use crate::text::{is_before, replace};
use vstd::prelude::*;
use vstd::string::*;

verus! {

/// What is documented of a function.
#[derive(Clone, Debug)]
pub struct FunctionApi {
    pub name: String,
    pub signature: String,
    pub description: String,
    pub example: String,
}

/// What is documented of a keyword.
#[derive(Clone, Debug)]
pub struct KeywordApi {
    pub name: String,
    pub description: String,
    pub example: String,
}

/// What the language documents of itself.
#[derive(Clone, Debug)]
pub struct Catalogue {
    /// The native functions.
    pub functions: Vec<FunctionApi>,
    /// The functions that define things.
    pub defines: Vec<FunctionApi>,
    /// The native variables.
    pub keywords: Vec<KeywordApi>,
}

/// A description on one line: line feeds become spaces.
pub open spec fn on_one_line(description: Seq<char>) -> Seq<char> {
    crate::text::replaced(description, "\n"@, " "@)
}

/// The page of a function: its keyword and its text.
pub open spec fn function_page(api: FunctionApi) -> (Seq<char>, Seq<char>) {
    (
        api.name@,
        "Usage\n"@ + api.signature@ + "\n\nDescription\n"@ + on_one_line(api.description@)
            + "\n\nExamples\n"@ + api.example@,
    )
}

/// The page of a keyword: the keyword and its text.
pub open spec fn keyword_page(api: KeywordApi) -> (Seq<char>, Seq<char>) {
    (
        api.name@,
        "Description\n"@ + on_one_line(api.description@) + "\n\nExamples\n"@ + api.example@,
    )
}

/// All the pages in the order in which they are filed.
pub open spec fn pages(catalogue: Catalogue) -> Seq<(Seq<char>, Seq<char>)> {
    catalogue.functions@.map_values(|api: FunctionApi| function_page(api))
        + catalogue.defines@.map_values(|api: FunctionApi| function_page(api))
        + catalogue.keywords@.map_values(|api: KeywordApi| keyword_page(api))
}

/// The pages filed by keyword. A page replaces an earlier one with its keyword.
pub open spec fn filed(pages: Seq<(Seq<char>, Seq<char>)>) -> Map<Seq<char>, Seq<char>>
    decreases pages.len(),
{
    if pages.len() == 0 {
        Map::empty()
    } else {
        filed(pages.drop_last()).insert(pages.last().0, pages.last().1)
    }
}

/// Of several pages with one keyword the last is the one that is found.
pub proof fn last_page_wins(pages: Seq<(Seq<char>, Seq<char>)>, i: int)
    requires
        0 <= i < pages.len(),
        forall|j: int| i < j < pages.len() ==> (#[trigger] pages[j]).0 != pages[i].0,
    ensures
        filed(pages).dom().contains(pages[i].0),
        filed(pages)[pages[i].0] == pages[i].1,
    decreases pages.len(),
{
    if i < pages.len() - 1 {
        assert(pages[pages.len() - 1].0 != pages[i].0);
        assert forall|j: int| i < j < pages.len() - 1 implies (#[trigger] pages.drop_last()[j]).0
            != pages.drop_last()[i].0 by {
            assert(pages[j].0 != pages[i].0);
        }
        last_page_wins(pages.drop_last(), i);
    }
}

/// A keyword is found only where a page has been filed under it.
pub proof fn found_means_filed(pages: Seq<(Seq<char>, Seq<char>)>, keyword: Seq<char>)
    requires
        filed(pages).dom().contains(keyword),
    ensures
        exists|i: int| 0 <= i < pages.len() && (#[trigger] pages[i]).0 == keyword,
    decreases pages.len(),
{
    if pages.last().0 == keyword {
        assert(pages[pages.len() - 1].0 == keyword);
    } else {
        found_means_filed(pages.drop_last(), keyword);
        let i = choose|i: int|
            0 <= i < pages.drop_last().len() && (#[trigger] pages.drop_last()[i]).0 == keyword;
        assert(pages[i].0 == keyword);
    }
}

/// Whether `keywords` stand in alphabetical order, none twice.
pub open spec fn alphabetical(keywords: Seq<Seq<char>>) -> bool {
    forall|i: int, j: int|
        0 <= i < j < keywords.len() ==> crate::text::precedes(
            #[trigger] keywords[i],
            #[trigger] keywords[j],
        )
}

/// Whether `keywords` are those of `reference`, in alphabetical order, each once.
pub open spec fn is_index_of(
    keywords: Seq<Seq<char>>,
    reference: Map<Seq<char>, Seq<char>>,
) -> bool {
    &&& alphabetical(keywords)
    &&& forall|keyword: Seq<char>|
        keywords.contains(keyword) <==> #[trigger] reference.dom().contains(keyword)
}

/// The keywords of `reference` in alphabetical order.
pub open spec fn index_of(reference: Map<Seq<char>, Seq<char>>) -> Seq<Seq<char>> {
    choose|keywords: Seq<Seq<char>>| is_index_of(keywords, reference)
}

/// A reference has one index only.
pub proof fn index_is_unique(
    a: Seq<Seq<char>>,
    b: Seq<Seq<char>>,
    reference: Map<Seq<char>, Seq<char>>,
)
    requires
        is_index_of(a, reference),
        is_index_of(b, reference),
    ensures
        a == b,
{
    assert forall|keyword: Seq<char>| a.contains(keyword) <==> b.contains(keyword) by {
        assert(a.contains(keyword) <==> reference.dom().contains(keyword));
    }
    lemma_same_order(a, b);
}

/// The page of a native function has its signature, its description with spaces for
/// line feeds, and its examples as they are, if nothing later has its name.
pub proof fn functions_are_documented(catalogue: Catalogue, i: int)
    requires
        0 <= i < catalogue.functions@.len(),
        forall|j: int|
            i < j < catalogue.functions@.len() ==> (#[trigger] catalogue.functions@[j]).name@
                != catalogue.functions@[i].name@,
        forall|j: int|
            0 <= j < catalogue.defines@.len() ==> (#[trigger] catalogue.defines@[j]).name@
                != catalogue.functions@[i].name@,
        forall|j: int|
            0 <= j < catalogue.keywords@.len() ==> (#[trigger] catalogue.keywords@[j]).name@
                != catalogue.functions@[i].name@,
    ensures
        ({
            let api = catalogue.functions@[i];
            let reference = filed(pages(catalogue));
            &&& reference.dom().contains(api.name@)
            &&& reference[api.name@] == "Usage\n"@ + api.signature@ + "\n\nDescription\n"@
                + api.description@.map_values(
                |c: char|
                    if c == '\n' {
                        ' '
                    } else {
                        c
                    },
            ) + "\n\nExamples\n"@ + api.example@
        }),
{
    let api = catalogue.functions@[i];
    let all = pages(catalogue);
    let at = i;
    lemma_one_line(api.description@);
    assert(all[at] == (api.name@, all[at].1));
    assert forall|j: int| at < j < all.len() implies (#[trigger] all[j]).0 != all[at].0 by {
        lemma_page_at(catalogue, j);
    }
    last_page_wins(all, at);
}

/// The page of a function that defines something is made in the same way.
pub proof fn defines_are_documented(catalogue: Catalogue, i: int)
    requires
        0 <= i < catalogue.defines@.len(),
        forall|j: int|
            i < j < catalogue.defines@.len() ==> (#[trigger] catalogue.defines@[j]).name@
                != catalogue.defines@[i].name@,
        forall|j: int|
            0 <= j < catalogue.keywords@.len() ==> (#[trigger] catalogue.keywords@[j]).name@
                != catalogue.defines@[i].name@,
    ensures
        ({
            let api = catalogue.defines@[i];
            let reference = filed(pages(catalogue));
            &&& reference.dom().contains(api.name@)
            &&& reference[api.name@] == "Usage\n"@ + api.signature@ + "\n\nDescription\n"@
                + api.description@.map_values(
                |c: char|
                    if c == '\n' {
                        ' '
                    } else {
                        c
                    },
            ) + "\n\nExamples\n"@ + api.example@
        }),
{
    let api = catalogue.defines@[i];
    let all = pages(catalogue);
    let at = catalogue.functions@.len() + i;
    lemma_one_line(api.description@);
    assert(all[at] == (api.name@, all[at].1));
    assert forall|j: int| at < j < all.len() implies (#[trigger] all[j]).0 != all[at].0 by {
        lemma_page_at(catalogue, j);
    }
    last_page_wins(all, at);
}

/// The page of a keyword has its description with spaces for line feeds, and its
/// examples as they are, if no later keyword has its name.
pub proof fn keywords_are_documented(catalogue: Catalogue, i: int)
    requires
        0 <= i < catalogue.keywords@.len(),
        forall|j: int|
            i < j < catalogue.keywords@.len() ==> (#[trigger] catalogue.keywords@[j]).name@
                != catalogue.keywords@[i].name@,
    ensures
        ({
            let api = catalogue.keywords@[i];
            let reference = filed(pages(catalogue));
            &&& reference.dom().contains(api.name@)
            &&& reference[api.name@] == "Description\n"@ + api.description@.map_values(
                |c: char|
                    if c == '\n' {
                        ' '
                    } else {
                        c
                    },
            ) + "\n\nExamples\n"@ + api.example@
        }),
{
    let api = catalogue.keywords@[i];
    let all = pages(catalogue);
    let at = catalogue.functions@.len() + catalogue.defines@.len() + i;
    lemma_one_line(api.description@);
    assert(all[at] == (api.name@, all[at].1));
    assert forall|j: int| at < j < all.len() implies (#[trigger] all[j]).0 != all[at].0 by {
        lemma_page_at(catalogue, j);
    }
    last_page_wins(all, at);
}

/// There is a page for every name in the catalogue, and for nothing else.
pub proof fn names_have_pages(catalogue: Catalogue, keyword: Seq<char>)
    ensures
        filed(pages(catalogue)).dom().contains(keyword) <==> {
            ||| exists|i: int|
                0 <= i < catalogue.functions@.len() && (#[trigger] catalogue.functions@[i]).name@
                    == keyword
            ||| exists|i: int|
                0 <= i < catalogue.defines@.len() && (#[trigger] catalogue.defines@[i]).name@
                    == keyword
            ||| exists|i: int|
                0 <= i < catalogue.keywords@.len() && (#[trigger] catalogue.keywords@[i]).name@
                    == keyword
        },
{
    let all = pages(catalogue);
    let f = catalogue.functions@.len();
    let d = catalogue.defines@.len();
    if filed(all).dom().contains(keyword) {
        found_means_filed(all, keyword);
        let k = choose|k: int| 0 <= k < all.len() && (#[trigger] all[k]).0 == keyword;
        lemma_page_at(catalogue, k);
        if k < f {
            assert(catalogue.functions@[k].name@ == keyword);
        } else if k < f + d {
            assert(catalogue.defines@[k - f].name@ == keyword);
        } else {
            assert(catalogue.keywords@[k - f - d].name@ == keyword);
        }
    }
    if exists|i: int|
        0 <= i < f && (#[trigger] catalogue.functions@[i]).name@ == keyword {
        let i = choose|i: int|
            0 <= i < f && (#[trigger] catalogue.functions@[i]).name@ == keyword;
        assert(all[i].0 == keyword);
        lemma_filed(all, i);
    }
    if exists|i: int| 0 <= i < d && (#[trigger] catalogue.defines@[i]).name@ == keyword {
        let i = choose|i: int| 0 <= i < d && (#[trigger] catalogue.defines@[i]).name@ == keyword;
        assert(all[f + i].0 == keyword);
        lemma_filed(all, f + i);
    }
    if exists|i: int|
        0 <= i < catalogue.keywords@.len() && (#[trigger] catalogue.keywords@[i]).name@
            == keyword {
        let i = choose|i: int|
            0 <= i < catalogue.keywords@.len() && (#[trigger] catalogue.keywords@[i]).name@
                == keyword;
        assert(all[f + d + i].0 == keyword);
        lemma_filed(all, f + d + i);
    }
}

/// A page that has been filed is there, or a later one with its keyword.
proof fn lemma_filed(pages: Seq<(Seq<char>, Seq<char>)>, i: int)
    requires
        0 <= i < pages.len(),
    ensures
        filed(pages).dom().contains(pages[i].0),
    decreases pages.len(),
{
    if i < pages.len() - 1 {
        lemma_filed(pages.drop_last(), i);
    }
}

/// Every page has the name of what it is about.
proof fn lemma_page_at(catalogue: Catalogue, k: int)
    requires
        0 <= k < pages(catalogue).len(),
    ensures
        ({
            let f = catalogue.functions@.len();
            let d = catalogue.defines@.len();
            pages(catalogue)[k].0 == (if k < f {
                catalogue.functions@[k].name@
            } else if k < f + d {
                catalogue.defines@[k - f].name@
            } else {
                catalogue.keywords@[k - f - d].name@
            })
        }),
{
}

proof fn lemma_one_line(description: Seq<char>)
    ensures
        on_one_line(description) == description.map_values(
            |c: char|
                if c == '\n' {
                    ' '
                } else {
                    c
                },
        ),
{
    reveal_strlit("\n");
    reveal_strlit(" ");
    assert("\n"@ =~= seq!['\n']);
    assert(" "@ =~= seq![' ']);
    crate::text::characters_are_replaced(description, '\n', ' ');
    assert(on_one_line(description) =~= description.map_values(
        |c: char|
            if c == '\n' {
                ' '
            } else {
                c
            },
    ));
}

/// The index is the one list that names every keyword with a page, and nothing else,
/// with every name before those behind it.
pub proof fn index_names_every_keyword(
    keywords: Seq<Seq<char>>,
    reference: Map<Seq<char>, Seq<char>>,
)
    requires
        is_index_of(keywords, reference),
    ensures
        forall|keyword: Seq<char>| #[trigger]
            keywords.contains(keyword) <==> reference.dom().contains(keyword),
        forall|i: int, j: int|
            0 <= i < j < keywords.len() ==> crate::text::precedes(
                #[trigger] keywords[i],
                #[trigger] keywords[j],
            ),
        keywords.no_duplicates(),
        index_of(reference) == keywords,
{
    assert forall|keyword: Seq<char>| #[trigger]
        keywords.contains(keyword) <==> reference.dom().contains(keyword) by {
        assert(keywords.contains(keyword) <==> reference.dom().contains(keyword));
    }
    assert forall|i: int, j: int| 0 <= i < j < keywords.len() implies keywords[i]
        != keywords[j] by {
        assert(crate::text::precedes(keywords[i], keywords[j]));
        crate::text::order_is_total(keywords[i], keywords[j]);
    }
    index_is_unique(keywords, index_of(reference), reference);
}

proof fn lemma_same_order(a: Seq<Seq<char>>, b: Seq<Seq<char>>)
    requires
        alphabetical(a),
        alphabetical(b),
        forall|keyword: Seq<char>| a.contains(keyword) <==> b.contains(keyword),
    ensures
        a == b,
    decreases a.len(),
{
    if a.len() == 0 {
        if b.len() > 0 {
            assert(b.contains(b[0]));
            assert(a.contains(b[0]));
        }
        assert(a =~= b);
    } else {
        assert(a.contains(a.last()));
        assert(b.contains(a.last()));
        let j = choose|j: int| 0 <= j < b.len() && b[j] == a.last();
        assert(b.contains(b.last()));
        assert(a.contains(b.last()));
        let i = choose|i: int| 0 <= i < a.len() && a[i] == b.last();
        crate::text::order_is_total(a.last(), b.last());
        if a.last() != b.last() {
            assert(crate::text::precedes(a[i], a[a.len() - 1]));
            assert(crate::text::precedes(b[j], b[b.len() - 1]));
        }
        let x = a.drop_last();
        let y = b.drop_last();
        assert forall|keyword: Seq<char>| x.contains(keyword) <==> y.contains(keyword) by {
            if x.contains(keyword) {
                let k = choose|k: int| 0 <= k < x.len() && x[k] == keyword;
                lemma_not_last(a, k);
                assert(a.contains(keyword));
                let m = choose|m: int| 0 <= m < b.len() && b[m] == keyword;
                assert(y[m] == keyword);
            }
            if y.contains(keyword) {
                let k = choose|k: int| 0 <= k < y.len() && y[k] == keyword;
                lemma_not_last(b, k);
                assert(b.contains(keyword));
                let m = choose|m: int| 0 <= m < a.len() && a[m] == keyword;
                assert(x[m] == keyword);
            }
        }
        lemma_same_order(x, y);
        assert(a =~= x.push(a.last()));
        assert(b =~= y.push(b.last()));
    }
}

proof fn lemma_not_last(keywords: Seq<Seq<char>>, k: int)
    requires
        alphabetical(keywords),
        0 <= k < keywords.len() - 1,
    ensures
        keywords[k] != keywords.last(),
{
    assert(crate::text::precedes(keywords[k], keywords[keywords.len() - 1]));
    crate::text::order_is_total(keywords[k], keywords[k]);
}

/// Entries in alphabetical order, no keyword twice.
spec fn in_order(entries: Seq<(String, String)>) -> bool {
    forall|i: int, j: int|
        0 <= i < j < entries.len() ==> crate::text::precedes(
            #[trigger] entries[i].0@,
            #[trigger] entries[j].0@,
        )
}

spec fn position(entries: Seq<(String, String)>, keyword: Seq<char>, i: int) -> bool {
    0 <= i < entries.len() && entries[i].0@ == keyword
}

spec fn contents(entries: Seq<(String, String)>) -> Map<Seq<char>, Seq<char>> {
    Map::new(
        |keyword: Seq<char>| exists|i: int| position(entries, keyword, i),
        |keyword: Seq<char>|
            entries[choose|i: int| position(entries, keyword, i)].1@,
    )
}

proof fn lemma_position(entries: Seq<(String, String)>, keyword: Seq<char>, i: int)
    requires
        in_order(entries),
        position(entries, keyword, i),
    ensures
        contents(entries).dom().contains(keyword),
        contents(entries)[keyword] == entries[i].1@,
{
    let k = choose|k: int| position(entries, keyword, k);
    crate::text::order_is_total(keyword, keyword);
    if k < i {
        assert(crate::text::precedes(entries[k].0@, entries[i].0@));
    } else if i < k {
        assert(crate::text::precedes(entries[i].0@, entries[k].0@));
    }
}

/// The pages by keyword.
#[derive(Debug)]
pub struct ApiReference {
    entries: Vec<(String, String)>,
}

impl View for ApiReference {
    type V = Map<Seq<char>, Seq<char>>;

    closed spec fn view(&self) -> Map<Seq<char>, Seq<char>> {
        contents(self.entries@)
    }
}

impl ApiReference {
    #[verifier::type_invariant]
    closed spec fn entries_in_order(self) -> bool {
        in_order(self.entries@)
    }

    /// The page of `keyword`, where it has one.
    pub fn lookup(&self, keyword: &str) -> (page: Option<&String>)
        ensures
            match page {
                Some(page) => self@.dom().contains(keyword@) && page@ == self@[keyword@],
                None => !self@.dom().contains(keyword@),
            },
    {
        proof {
            use_type_invariant(self);
        }
        let wanted: String = keyword.to_owned();
        let mut i: usize = 0;
        while i < self.entries.len()
            invariant
                i <= self.entries@.len(),
                wanted@ == keyword@,
                in_order(self.entries@),
                forall|k: int| 0 <= k < i ==> (#[trigger] self.entries@[k]).0@ != keyword@,
            decreases self.entries@.len() - i,
        {
            if self.entries[i].0 == wanted {
                proof {
                    lemma_position(self.entries@, keyword@, i as int);
                }
                return Some(&self.entries[i].1);
            }
            i += 1;
        }
        proof {
            assert(forall|k: int| !position(self.entries@, keyword@, k));
        }
        None
    }

    /// The keywords in alphabetical order, each once.
    pub fn index(&self) -> (keywords: Vec<String>)
        ensures
            is_index_of(keywords.deep_view(), self@),
            keywords.deep_view() == index_of(self@),
    {
        proof {
            use_type_invariant(self);
        }
        let mut keywords: Vec<String> = Vec::new();
        let mut i: usize = 0;
        while i < self.entries.len()
            invariant
                i <= self.entries@.len(),
                keywords@.len() == i,
                forall|k: int|
                    0 <= k < i ==> #[trigger] keywords.deep_view()[k] == self.entries@[k].0@,
            decreases self.entries@.len() - i,
        {
            crate::text::push_line(&mut keywords, self.entries[i].0.clone());
            i += 1;
        }
        proof {
            let names = keywords.deep_view();
            assert forall|keyword: Seq<char>|
                names.contains(keyword) <==> #[trigger] self@.dom().contains(keyword) by {
                if names.contains(keyword) {
                    let k = choose|k: int| 0 <= k < names.len() && names[k] == keyword;
                    assert(position(self.entries@, keyword, k));
                }
                if self@.dom().contains(keyword) {
                    let k = choose|k: int| position(self.entries@, keyword, k);
                    assert(names[k] == keyword);
                }
            }
            assert(is_index_of(names, self@));
            index_is_unique(names, index_of(self@), self@);
        }
        keywords
    }
}

impl Clone for ApiReference {
    fn clone(&self) -> (copy: Self)
        ensures
            copy@ == self@,
    {
        proof {
            use_type_invariant(self);
        }
        let mut entries: Vec<(String, String)> = Vec::new();
        let mut i: usize = 0;
        while i < self.entries.len()
            invariant
                i <= self.entries@.len(),
                entries@ == self.entries@.take(i as int),
            decreases self.entries@.len() - i,
        {
            proof {
                assert(self.entries@.take(i + 1) =~= self.entries@.take(i as int).push(
                    self.entries@[i as int],
                ));
            }
            entries.push((self.entries[i].0.clone(), self.entries[i].1.clone()));
            i += 1;
        }
        proof {
            assert(entries@ =~= self.entries@);
        }
        ApiReference { entries }
    }
}

/// Files `page` under `keyword`, in place of the page that stood there.
fn file(entries: &mut Vec<(String, String)>, keyword: String, page: String)
    requires
        in_order(old(entries)@),
    ensures
        in_order(final(entries)@),
        contents(final(entries)@) == contents(old(entries)@).insert(keyword@, page@),
{
    let ghost before = entries@;
    let mut i: usize = 0;
    while i < entries.len() && is_before(entries[i].0.as_str(), keyword.as_str())
        invariant
            i <= entries@.len(),
            entries@ == before,
            forall|k: int|
                0 <= k < i ==> crate::text::precedes(#[trigger] before[k].0@, keyword@),
        decreases entries@.len() - i,
    {
        i += 1;
    }
    proof {
        crate::text::order_is_total(keyword@, keyword@);
        assert forall|k: int| i < k < before.len() implies crate::text::precedes(
            keyword@,
            #[trigger] before[k].0@,
        ) by {
            crate::text::order_is_total(before[i as int].0@, keyword@);
            assert(crate::text::precedes(before[i as int].0@, before[k].0@));
            if before[i as int].0@ != keyword@ {
                crate::text::order_is_transitive(keyword@, before[i as int].0@, before[k].0@);
            }
        }
    }
    let found: bool = i < entries.len() && entries[i].0 == keyword;
    let ghost entry = (keyword, page);
    if found {
        entries.set(i, (keyword, page));
        proof {
            lemma_replace(before, entry, i as int);
        }
    } else {
        proof {
            if i < before.len() {
                crate::text::order_is_total(before[i as int].0@, keyword@);
            }
        }
        entries.insert(i, (keyword, page));
        proof {
            lemma_insert(before, entry, i as int);
        }
    }
}

proof fn lemma_replace(before: Seq<(String, String)>, entry: (String, String), i: int)
    requires
        in_order(before),
        0 <= i < before.len(),
        before[i].0@ == entry.0@,
    ensures
        in_order(before.update(i, entry)),
        contents(before.update(i, entry)) == contents(before).insert(entry.0@, entry.1@),
{
    let after = before.update(i, entry);
    assert forall|a: int, b: int| 0 <= a < b < after.len() implies crate::text::precedes(
        #[trigger] after[a].0@,
        #[trigger] after[b].0@,
    ) by {
        assert(crate::text::precedes(before[a].0@, before[b].0@));
    }
    let expected = contents(before).insert(entry.0@, entry.1@);
    assert forall|keyword: Seq<char>| contents(after).dom().contains(keyword)
        == expected.dom().contains(keyword) by {
        assert(position(after, entry.0@, i));
        if exists|k: int| position(after, keyword, k) {
            let k = choose|k: int| position(after, keyword, k);
            assert(position(before, keyword, k));
        }
        if exists|k: int| position(before, keyword, k) {
            let k = choose|k: int| position(before, keyword, k);
            assert(position(after, keyword, k));
        }
    }
    assert forall|keyword: Seq<char>| contents(after).dom().contains(keyword) implies contents(
        after,
    )[keyword] == expected[keyword] by {
        let k = choose|k: int| position(after, keyword, k);
        lemma_position(after, keyword, k);
        if keyword == entry.0@ {
            lemma_position(after, keyword, i);
        } else {
            assert(position(before, keyword, k));
            lemma_position(before, keyword, k);
        }
    }
    assert(contents(after) =~= expected);
}

proof fn lemma_insert(before: Seq<(String, String)>, entry: (String, String), i: int)
    requires
        in_order(before),
        0 <= i <= before.len(),
        forall|k: int| 0 <= k < i ==> crate::text::precedes(#[trigger] before[k].0@, entry.0@),
        forall|k: int|
            i <= k < before.len() ==> crate::text::precedes(entry.0@, #[trigger] before[k].0@),
    ensures
        in_order(before.insert(i, entry)),
        contents(before.insert(i, entry)) == contents(before).insert(entry.0@, entry.1@),
{
    let after = before.insert(i, entry);
    assert forall|a: int, b: int| 0 <= a < b < after.len() implies crate::text::precedes(
        #[trigger] after[a].0@,
        #[trigger] after[b].0@,
    ) by {
        let c = if a < i {
            a
        } else {
            a - 1
        };
        let d = if b < i {
            b
        } else {
            b - 1
        };
        if a != i && b != i {
            assert(crate::text::precedes(before[c].0@, before[d].0@));
        } else if a == i {
            assert(crate::text::precedes(entry.0@, before[d].0@));
        }
    }
    let expected = contents(before).insert(entry.0@, entry.1@);
    assert(position(after, entry.0@, i));
    assert forall|keyword: Seq<char>| contents(after).dom().contains(keyword)
        == expected.dom().contains(keyword) by {
        if exists|k: int| position(after, keyword, k) {
            let k = choose|k: int| position(after, keyword, k);
            if k < i {
                assert(position(before, keyword, k));
            } else if k > i {
                assert(position(before, keyword, k - 1));
            }
        }
        if exists|k: int| position(before, keyword, k) {
            let k = choose|k: int| position(before, keyword, k);
            if k < i {
                assert(position(after, keyword, k));
            } else {
                assert(position(after, keyword, k + 1));
            }
        }
    }
    assert forall|keyword: Seq<char>| contents(after).dom().contains(keyword) implies contents(
        after,
    )[keyword] == expected[keyword] by {
        let k = choose|k: int| position(after, keyword, k);
        lemma_position(after, keyword, k);
        if keyword == entry.0@ {
            lemma_position(after, keyword, i);
        } else {
            let c = if k < i {
                k
            } else {
                k - 1
            };
            assert(position(before, keyword, c));
            lemma_position(before, keyword, c);
        }
    }
    assert(contents(after) =~= expected);
}

fn write_function_page(api: &FunctionApi) -> (page: String)
    ensures
        page@ == function_page(*api).1,
{
    proof {
        reveal_strlit("\n");
    }
    let description: String = replace(api.description.as_str(), "\n", " ");
    let mut page: String = "Usage\n".to_owned();
    page.append(api.signature.as_str());
    page.append("\n\nDescription\n");
    page.append(description.as_str());
    page.append("\n\nExamples\n");
    page.append(api.example.as_str());
    page
}

fn write_keyword_page(api: &KeywordApi) -> (page: String)
    ensures
        page@ == keyword_page(*api).1,
{
    proof {
        reveal_strlit("\n");
    }
    let description: String = replace(api.description.as_str(), "\n", " ");
    let mut page: String = "Description\n".to_owned();
    page.append(description.as_str());
    page.append("\n\nExamples\n");
    page.append(api.example.as_str());
    page
}

/// Files the pages of `apis` behind those that `done` stands for.
fn file_functions(
    entries: &mut Vec<(String, String)>,
    apis: &Vec<FunctionApi>,
    Ghost(done): Ghost<Seq<(Seq<char>, Seq<char>)>>,
)
    requires
        in_order(old(entries)@),
        contents(old(entries)@) == filed(done),
    ensures
        in_order(final(entries)@),
        contents(final(entries)@) == filed(
            done + apis@.map_values(|api: FunctionApi| function_page(api)),
        ),
{
    let ghost added = apis@.map_values(|api: FunctionApi| function_page(api));
    let mut i: usize = 0;
    proof {
        assert(done + added.take(0) =~= done);
    }
    while i < apis.len()
        invariant
            i <= apis@.len(),
            added == apis@.map_values(|api: FunctionApi| function_page(api)),
            in_order(entries@),
            contents(entries@) == filed(done + added.take(i as int)),
        decreases apis@.len() - i,
    {
        file(entries, apis[i].name.clone(), write_function_page(&apis[i]));
        proof {
            let next = done + added.take(i + 1);
            assert(next.drop_last() =~= done + added.take(i as int));
            assert(next.last() == added[i as int]);
        }
        i += 1;
    }
    proof {
        assert(added.take(i as int) =~= added);
    }
}

/// Files a page for everything in `catalogue`.
pub fn build_api_reference(catalogue: &Catalogue) -> (reference: ApiReference)
    ensures
        reference@ == filed(pages(*catalogue)),
{
    let mut entries: Vec<(String, String)> = Vec::new();
    let ghost none: Seq<(Seq<char>, Seq<char>)> = Seq::empty();
    let ghost functions = catalogue.functions@.map_values(|api: FunctionApi| function_page(api));
    let ghost defines = catalogue.defines@.map_values(|api: FunctionApi| function_page(api));
    let ghost keywords = catalogue.keywords@.map_values(|api: KeywordApi| keyword_page(api));
    proof {
        assert forall|keyword: Seq<char>, i: int| !position(entries@, keyword, i) by {}
        assert(contents(entries@) =~= Map::empty());
        assert(none + functions =~= functions);
    }
    file_functions(&mut entries, &catalogue.functions, Ghost(none));
    file_functions(&mut entries, &catalogue.defines, Ghost(functions));
    let ghost done = functions + defines;
    let mut i: usize = 0;
    proof {
        assert(done + keywords.take(0) =~= done);
    }
    while i < catalogue.keywords.len()
        invariant
            i <= catalogue.keywords@.len(),
            keywords == catalogue.keywords@.map_values(|api: KeywordApi| keyword_page(api)),
            in_order(entries@),
            contents(entries@) == filed(done + keywords.take(i as int)),
        decreases catalogue.keywords@.len() - i,
    {
        let api: &KeywordApi = &catalogue.keywords[i];
        file(&mut entries, api.name.clone(), write_keyword_page(api));
        proof {
            let next = done + keywords.take(i + 1);
            assert(next.drop_last() =~= done + keywords.take(i as int));
            assert(next.last() == keywords[i as int]);
        }
        i += 1;
    }
    proof {
        assert(keywords.take(i as int) =~= keywords);
    }
    ApiReference { entries }
}

} // verus!
