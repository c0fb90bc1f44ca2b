//! Categories: the mappings of a process grouped under names, with the
//! size of each group.

use crate::mapping_kind::MappingKind;
use crate::mapping_kind::MappingKindView;
use crate::order::inserted;
use crate::order::is_largest_first;
use crate::order::largest_first;
use crate::order::lemma_largest_first_is_ordered;
use crate::order::lemma_inserted_at;
use crate::order::lemma_largest_first_is_permutation;
use crate::order::lemma_place_exists;
use crate::order::sort_largest_first;
use crate::order::views;
use crate::order::Measured;
use crate::pmap::PMap;
use crate::pmap::PMapVec;
use crate::pmap::PMapView;
use vstd::prelude::*;
use vstd::string::StringExecFns;

verus! {

/// The sizes of `records` together, in KiB.
pub open spec fn total_size(records: Seq<PMapView>) -> nat
    decreases records.len(),
{
    if records.len() == 0 {
        0
    } else {
        total_size(records.drop_last()) + records.last().size_in_kibibyte as nat
    }
}

/// A group of mappings under a name.
#[derive(Debug, PartialEq)]
pub struct PMapCategory {
    /// The name of the category.
    pub name: String,
    /// The sizes of the category's mappings together, in KiB. They are
    /// held in 128 bits, which is enough for as many mappings as there can
    /// be.
    pub total_size_in_kibibyte: u128,
    /// The category's mappings, in the order in which they came.
    pub pages: Vec<PMap>,
}

/// What a [`PMapCategory`] holds.
pub struct PMapCategoryView {
    pub name: Seq<char>,
    pub total_size_in_kibibyte: nat,
    pub pages: Seq<PMapView>,
}

impl View for PMapCategory {
    type V = PMapCategoryView;

    open spec fn view(&self) -> PMapCategoryView {
        PMapCategoryView {
            name: self.name@,
            total_size_in_kibibyte: self.total_size_in_kibibyte as nat,
            pages: views(self.pages@),
        }
    }
}

impl PMapCategoryView {
    /// The category `name` without a mapping.
    pub open spec fn new(name: Seq<char>) -> PMapCategoryView {
        PMapCategoryView { name, total_size_in_kibibyte: 0, pages: Seq::empty() }
    }

    /// The category with `record` as its last mapping.
    pub open spec fn with_page(self, record: PMapView) -> PMapCategoryView {
        PMapCategoryView {
            name: self.name,
            total_size_in_kibibyte: self.total_size_in_kibibyte + record.size_in_kibibyte as nat,
            pages: self.pages.push(record),
        }
    }

    /// Whether the category's size is that of its mappings together.
    pub open spec fn is_consistent(self) -> bool {
        self.total_size_in_kibibyte == total_size(self.pages)
    }
}

impl PMapCategory {
    /// The category `name` without a mapping.
    pub fn new(name: String) -> (category: Self)
        ensures
            category@ == PMapCategoryView::new(name@),
            category@.is_consistent(),
    {
        let category = PMapCategory { name, total_size_in_kibibyte: 0, pages: Vec::new() };
        assert(views(category.pages@) == Seq::<PMapView>::empty());
        category
    }

    /// Puts `page` at the end of the category and adds its size to the
    /// category's.
    pub fn add_page(&mut self, page: PMap)
        requires
            old(self).total_size_in_kibibyte + page.size_in_kibibyte <= u128::MAX,
        ensures
            final(self)@ == old(self)@.with_page(page@),
            old(self)@.is_consistent() ==> final(self)@.is_consistent(),
    {
        let ghost before = views(self.pages@);
        self.total_size_in_kibibyte += page.size_in_kibibyte as u128;
        self.pages.push(page);
        assert(views(self.pages@) == before.push(page@));
        assert(before.push(page@).drop_last() == before);
    }
}

/// Categories, in order.
#[derive(Debug, PartialEq)]
pub struct PMapCategoryVec(pub Vec<PMapCategory>);

impl View for PMapCategoryVec {
    type V = Seq<PMapCategoryView>;

    open spec fn view(&self) -> Seq<PMapCategoryView> {
        views(self.0@)
    }
}

/// Whether each of `categories` has the size of its mappings together.
pub open spec fn are_consistent(categories: Seq<PMapCategoryView>) -> bool {
    forall|i: int| 0 <= i < categories.len() ==> (#[trigger] categories[i]).is_consistent()
}

/// The index of the first of `categories` at or after `from` with the name
/// `name`, or the length.
pub open spec fn find_category(categories: Seq<PMapCategoryView>, name: Seq<char>, from: int) -> int
    decreases categories.len() - from,
{
    if 0 <= from < categories.len() && categories[from].name != name {
        find_category(categories, name, from + 1)
    } else {
        from
    }
}

/// `categories` with `record` put into the category `label`: at the end of
/// the first category of that name, or, where there is none, as the only
/// mapping of a new category behind the others.
pub open spec fn routed(
    categories: Seq<PMapCategoryView>,
    record: PMapView,
    label: Seq<char>,
) -> Seq<PMapCategoryView> {
    let i = find_category(categories, label, 0);
    if i < categories.len() {
        categories.update(i, categories[i].with_page(record))
    } else {
        categories.push(PMapCategoryView::new(label).with_page(record))
    }
}

impl Measured for PMapCategory {
    /// The size of a category is that of its mappings together.
    open spec fn measure(value: PMapCategoryView) -> nat {
        value.total_size_in_kibibyte
    }

    fn size(&self) -> (size: u128) {
        self.total_size_in_kibibyte
    }
}

/// `categories` in the order of their sizes, the largest first; those of
/// one size stay in the order in which they stand in `categories`.
pub open spec fn sorted_by_size(categories: Seq<PMapCategoryView>) -> Seq<PMapCategoryView> {
    largest_first::<PMapCategory>(categories)
}

impl PMapCategoryVec {
    /// Puts `page` into the category `label`, which is made where there is
    /// none yet.
    pub fn route(&mut self, page: PMap, label: String)
        requires
            ({
                let i = find_category(old(self)@, label@, 0);
                i < old(self)@.len() ==> old(self)@[i].total_size_in_kibibyte
                    + page.size_in_kibibyte <= u128::MAX
            }),
        ensures
            final(self)@ == routed(old(self)@, page@, label@),
            are_consistent(old(self)@) ==> are_consistent(final(self)@),
    {
        let mut i: usize = 0;
        while i < self.0.len() && self.0[i].name != label
            invariant
                i <= self.0@.len(),
                find_category(self@, label@, 0) == find_category(self@, label@, i as int),
            decreases self.0@.len() - i,
        {
            i += 1;
        }
        if i < self.0.len() {
            self.0[i].add_page(page);
            assert(self@ == routed(old(self)@, page@, label@));
            assert(are_consistent(old(self)@) ==> are_consistent(self@)) by {
                if are_consistent(old(self)@) {
                    assert(old(self)@[i as int].is_consistent());
                    assert forall|j: int| 0 <= j < self@.len() implies (
                    #[trigger] self@[j]).is_consistent() by {
                        if j != i {
                            assert(old(self)@[j].is_consistent());
                        }
                    }
                }
            }
        } else {
            let mut category = PMapCategory::new(label);
            category.add_page(page);
            let ghost added = category@;
            self.0.push(category);
            assert(self@ == old(self)@.push(added));
            assert(are_consistent(old(self)@) ==> are_consistent(self@)) by {
                if are_consistent(old(self)@) {
                    assert forall|j: int| 0 <= j < self@.len() implies (
                    #[trigger] self@[j]).is_consistent() by {
                        if j < old(self)@.len() {
                            assert(old(self)@[j].is_consistent());
                        }
                    }
                }
            }
        }
    }

    /// Puts the categories in the order of their sizes, the largest first.
    /// Categories of one size keep their order.
    pub fn sort_by_size(&mut self)
        ensures
            final(self)@ == sorted_by_size(old(self)@),
            is_largest_first::<PMapCategory>(final(self)@),
            are_consistent(old(self)@) ==> are_consistent(final(self)@),
    {
        sort_largest_first(&mut self.0);
        proof {
            let before = old(self)@;
            let after = self@;
            lemma_largest_first_is_ordered::<PMapCategory>(before);
            lemma_largest_first_is_permutation::<PMapCategory>(before);
            if are_consistent(before) {
                assert forall|j: int| 0 <= j < after.len() implies (
                #[trigger] after[j]).is_consistent() by {
                    assert(after.contains(after[j]));
                    vstd::seq_lib::to_multiset_contains(after, after[j]);
                    vstd::seq_lib::to_multiset_contains(before, after[j]);
                    let i = choose|i: int| 0 <= i < before.len() && before[i] == after[j];
                    assert(before[i].is_consistent());
                }
            }
        }
    }
}

/// The sizes of `categories` together, in KiB.
pub open spec fn sizes_sum(categories: Seq<PMapCategoryView>) -> nat
    decreases categories.len(),
{
    if categories.len() == 0 {
        0
    } else {
        sizes_sum(categories.drop_last()) + categories.last().total_size_in_kibibyte
    }
}

/// How many mappings `categories` hold together.
pub open spec fn pages_sum(categories: Seq<PMapCategoryView>) -> nat
    decreases categories.len(),
{
    if categories.len() == 0 {
        0
    } else {
        pages_sum(categories.drop_last()) + categories.last().pages.len()
    }
}

/// The sums over a list of categories.
#[derive(Clone, Copy, Debug, PartialEq, Eq)]
pub struct Totals {
    /// The sizes of the categories together, in KiB.
    pub size_in_kibibyte: u128,
    /// How many mappings the categories hold together.
    pub pages: u128,
}

/// No part of `categories` has a larger sum than all of them.
proof fn lemma_sizes_sum_grows(categories: Seq<PMapCategoryView>, k: int)
    requires
        0 <= k <= categories.len(),
    ensures
        sizes_sum(categories.take(k)) <= sizes_sum(categories),
    decreases categories.len(),
{
    if k < categories.len() {
        lemma_sizes_sum_grows(categories.drop_last(), k);
        assert(categories.drop_last().take(k) == categories.take(k));
    } else {
        assert(categories.take(k) == categories);
    }
}

impl PMapCategoryVec {
    /// The sums over all the categories, where the sum of their sizes can
    /// be held in 128 bits; it can be for the categories of a process,
    /// whose sizes are together those of its mappings.
    pub fn totals(&self) -> (totals: Option<Totals>)
        ensures
            match totals {
                Some(sums) => sums.size_in_kibibyte == sizes_sum(self@) && sums.pages
                    == pages_sum(self@),
                None => sizes_sum(self@) > u128::MAX,
            },
    {
        let mut size: u128 = 0;
        let mut pages: u128 = 0;
        let mut i: usize = 0;
        assert(self@.take(0) == Seq::<PMapCategoryView>::empty());
        while i < self.0.len()
            invariant
                i <= self.0@.len(),
                size == sizes_sum(self@.take(i as int)),
                pages == pages_sum(self@.take(i as int)),
                pages <= i * 0xffff_ffff_ffff_ffff,
            decreases self.0@.len() - i,
        {
            assert(self@.take(i + 1).drop_last() == self@.take(i as int));
            assert(self@.take(i + 1).last() == self.0@[i as int]@);
            assert((i + 1) * 0xffff_ffff_ffff_ffff <= 0xffff_ffff_ffff_ffff * 0xffff_ffff_ffff_ffff
                && (i + 1) * 0xffff_ffff_ffff_ffff == i * 0xffff_ffff_ffff_ffff
                + 0xffff_ffff_ffff_ffff) by (nonlinear_arith)
                requires
                    i < 0xffff_ffff_ffff_ffff,
            ;
            match size.checked_add(self.0[i].total_size_in_kibibyte) {
                Some(sum) => {
                    size = sum;
                },
                None => {
                    proof {
                        lemma_sizes_sum_grows(self@, i + 1);
                    }
                    return None;
                },
            }
            pages = pages + self.0[i].pages.len() as u128;
            i += 1;
        }
        assert(self@.take(i as int) == self@);
        Some(Totals { size_in_kibibyte: size, pages })
    }
}

/// The categories of `records`, where `labels` holds for each record, in
/// order, the name of its category: each record is routed in turn. The
/// categories stand in the order in which their first records came.
pub open spec fn grouped(records: Seq<PMapView>, labels: Seq<Seq<char>>) -> Seq<PMapCategoryView>
    decreases records.len(),
{
    if records.len() == 0 {
        Seq::empty()
    } else {
        routed(grouped(records.drop_last(), labels.drop_last()), records.last(), labels.last())
    }
}

/// The categories of `records` under the names `labels`, the largest first.
pub open spec fn categories_of(records: Seq<PMapView>, labels: Seq<Seq<char>>) -> Seq<
    PMapCategoryView,
> {
    sorted_by_size(grouped(records, labels))
}

/// The name of the category of a mapping whose kind decides it: the text
/// in brackets of the five fixed kinds, and `Anonymous` for an anonymous
/// mapping without a name. A file and a named anonymous mapping have none.
pub open spec fn fixed_label(kind: MappingKindView) -> Option<Seq<char>> {
    match kind {
        MappingKindView::Heap => Some("[heap]"@),
        MappingKindView::Stack => Some("[stack]"@),
        MappingKindView::VirtualVariables => Some("[vvar]"@),
        MappingKindView::VirtualDynamicSharedObject => Some("[vdso]"@),
        MappingKindView::VirtualSystemCall => Some("[vsyscall]"@),
        MappingKindView::AnonymousPrivate(None) => Some("Anonymous"@),
        MappingKindView::AnonymousShared(None) => Some("Anonymous"@),
        _ => None,
    }
}

/// Whether `label` can be the name of the category of a mapping of the
/// kind `kind` where `name_of` names the categories that no kind decides:
/// the fixed name where there is one, else a name that `name_of` can
/// return for that kind.
pub open spec fn is_label<F: Fn(MappingKind) -> String>(
    name_of: F,
    kind: MappingKindView,
    label: Seq<char>,
) -> bool {
    match fixed_label(kind) {
        Some(fixed) => label == fixed,
        None => exists|asked: MappingKind, name: String|
            asked@ == kind && name@ == label && call_ensures(name_of, (asked,), name),
    }
}

/// Whether `labels` can be the names of the categories of `records`, one
/// for each record.
pub open spec fn are_labels<F: Fn(MappingKind) -> String>(
    name_of: F,
    records: Seq<PMapView>,
    labels: Seq<Seq<char>>,
) -> bool {
    &&& labels.len() == records.len()
    &&& forall|i: int|
        0 <= i < records.len() ==> is_label(name_of, records[i].mapping_kind, #[trigger] labels[i])
}

/// Whether `name_of` can be asked for the name of the category of a
/// mapping of the kind `kind`, where the kind does not decide it.
pub open spec fn can_name<F: Fn(MappingKind) -> String>(name_of: F, kind: MappingKindView) -> bool {
    fixed_label(kind) is None ==> forall|asked: MappingKind|
        asked@ == kind ==> #[trigger] call_requires(name_of, (asked,))
}

/// Whether `name_of` can be asked for the name of the category of each of
/// `records` whose kind does not decide it.
pub open spec fn can_name_all<F: Fn(MappingKind) -> String>(
    name_of: F,
    records: Seq<PMapView>,
) -> bool {
    forall|i: int| 0 <= i < records.len() ==> can_name(name_of, (#[trigger] records[i]).mapping_kind)
}

/// The name of the category of a mapping of the kind `kind`.
pub fn label_of<F: Fn(MappingKind) -> String>(kind: &MappingKind, name_of: &F) -> (label: String)
    requires
        can_name(*name_of, kind@),
    ensures
        is_label(*name_of, kind@, label@),
{
    match kind {
        MappingKind::Heap => String::from_str("[heap]"),
        MappingKind::Stack => String::from_str("[stack]"),
        MappingKind::VirtualVariables => String::from_str("[vvar]"),
        MappingKind::VirtualDynamicSharedObject => String::from_str("[vdso]"),
        MappingKind::VirtualSystemCall => String::from_str("[vsyscall]"),
        MappingKind::AnonymousPrivate(None) => String::from_str("Anonymous"),
        MappingKind::AnonymousShared(None) => String::from_str("Anonymous"),
        _ => {
            let asked = kind.clone();
            let name = name_of(asked);
            name
        },
    }
}

/// The views of `labels`.
pub open spec fn texts_of(labels: Seq<String>) -> Seq<Seq<char>> {
    views(labels)
}

/// The names of the categories of `pages`, one for each page, in order.
pub fn labels_of<F: Fn(MappingKind) -> String>(pages: &PMapVec, name_of: &F) -> (labels: Vec<String>)
    requires
        can_name_all(*name_of, pages@),
    ensures
        are_labels(*name_of, pages@, texts_of(labels@)),
{
    let mut labels: Vec<String> = Vec::new();
    let mut i: usize = 0;
    while i < pages.0.len()
        invariant
            i <= pages.0@.len(),
            can_name_all(*name_of, pages@),
            are_labels(*name_of, pages@.take(i as int), texts_of(labels@)),
        decreases pages.0@.len() - i,
    {
        let ghost before = texts_of(labels@);
        assert(pages@[i as int].mapping_kind == pages.0[i as int].mapping_kind@);
        let label = label_of(&pages.0[i].mapping_kind, name_of);
        labels.push(label);
        assert(texts_of(labels@) == before.push(label@));
        i += 1;
    }
    assert(pages@.take(i as int) == pages@);
    labels
}

/// Records are together no larger than as many of the largest size.
pub proof fn lemma_total_size_bound(records: Seq<PMapView>)
    ensures
        total_size(records) <= records.len() * u64::MAX,
    decreases records.len(),
{
    if records.len() > 0 {
        lemma_total_size_bound(records.drop_last());
        assert((records.len() - 1) * u64::MAX + u64::MAX == records.len() * u64::MAX)
            by (nonlinear_arith);
    }
}

/// Whether none of `categories` is larger than `bound`.
pub open spec fn sizes_are_within(categories: Seq<PMapCategoryView>, bound: nat) -> bool {
    forall|i: int|
        0 <= i < categories.len() ==> (#[trigger] categories[i]).total_size_in_kibibyte <= bound
}

/// No category is larger than all the records together.
pub proof fn lemma_sizes_are_within_total(records: Seq<PMapView>, labels: Seq<Seq<char>>)
    requires
        labels.len() == records.len(),
    ensures
        sizes_are_within(grouped(records, labels), total_size(records)),
    decreases records.len(),
{
    if records.len() > 0 {
        let before = grouped(records.drop_last(), labels.drop_last());
        let after = grouped(records, labels);
        lemma_sizes_are_within_total(records.drop_last(), labels.drop_last());
        lemma_find_category(before, labels.last(), 0);
        assert forall|j: int| 0 <= j < after.len() implies (
        #[trigger] after[j]).total_size_in_kibibyte <= total_size(records) by {
            if j < before.len() {
                assert(before[j].total_size_in_kibibyte <= total_size(records.drop_last()));
            }
        }
    }
}

impl PMapCategory {
    /// Groups `memory_pages` into categories under the names `labels`,
    /// which holds one name for each page, and puts the largest category
    /// first.
    pub fn categorize(memory_pages: PMapVec, labels: &Vec<String>) -> (categories: PMapCategoryVec)
        requires
            labels@.len() == memory_pages@.len(),
        ensures
            categories@ == categories_of(memory_pages@, texts_of(labels@)),
            is_grouping(categories@, memory_pages@, texts_of(labels@)),
            is_largest_first::<PMapCategory>(categories@),
            is_ranked(categories@, texts_of(labels@)),
            sizes_sum(categories@) == total_size(memory_pages@),
            sizes_sum(categories@) <= u128::MAX,
            pages_sum(categories@) == memory_pages@.len(),
    {
        let ghost records = memory_pages@;
        let ghost names = texts_of(labels@);
        let mut categories = PMapCategoryVec(Vec::new());
        let n = memory_pages.0.len();
        let mut i: usize = 0;
        assert(categories@ == grouped(records.take(0), names.take(0)));
        for page in it: memory_pages.0
            invariant
                records == memory_pages@,
                records.len() == n,
                names == texts_of(labels@),
                records.len() == names.len(),
                i == it.index(),
                it.seq() == memory_pages.0@,
                categories@ == grouped(records.take(i as int), names.take(i as int)),
        {
            proof {
                let before = categories@;
                assert(records.take(i + 1).drop_last() == records.take(i as int));
                assert(names.take(i + 1).drop_last() == names.take(i as int));
                assert(records.take(i + 1).last() == page@);
                lemma_find_category(before, names[i as int], 0);
                lemma_sizes_are_within_total(records.take(i as int), names.take(i as int));
                lemma_total_size_bound(records.take(i as int));
                let at = find_category(before, names[i as int], 0);
                if at < before.len() {
                    assert(before[at].total_size_in_kibibyte <= total_size(
                        records.take(i as int),
                    ));
                    assert(i * u64::MAX + u64::MAX <= u128::MAX) by (nonlinear_arith)
                        requires
                            i <= u64::MAX,
                    ;
                }
            }
            let label = labels[i].clone();
            categories.route(page, label);
            i += 1;
        }
        assert(records.take(i as int) == records);
        assert(names.take(i as int) == names);
        categories.sort_by_size();
        proof {
            lemma_categories_of_is_grouping(records, names);
            lemma_categories_of_is_ranked(records, names);
            lemma_categories_of_sums(records, names);
            lemma_total_size_bound(records);
            assert(n * u64::MAX <= u128::MAX) by (nonlinear_arith)
                requires
                    n <= u64::MAX,
            ;
        }
        categories
    }

    /// Groups `memory_pages` into categories and puts the largest first.
    /// The kind of a mapping decides its category where [`fixed_label`]
    /// has a name for it; for every other mapping `get_custom_category_name`
    /// is asked, in the order of the pages, and has to be a function that
    /// can be called for it. The result is always `Ok`.
    pub fn get_categories_from_memory_pages<F: Fn(MappingKind) -> String>(
        memory_pages: PMapVec,
        get_custom_category_name: &F,
    ) -> (r: Result<PMapCategoryVec, String>)
        requires
            can_name_all(*get_custom_category_name, memory_pages@),
        ensures
            r is Ok,
            is_categorization(*get_custom_category_name, memory_pages@, r->Ok_0@),
    {
        let labels = labels_of(&memory_pages, get_custom_category_name);
        let categories = PMapCategory::categorize(memory_pages, &labels);
        Ok(categories)
    }
}

/// Whether `categories` are the categories of `records` where `name_of`
/// names the categories that no kind decides: under names that `name_of`
/// can have returned, they are [`categories_of`] the records.
pub open spec fn is_categorization<F: Fn(MappingKind) -> String>(
    name_of: F,
    records: Seq<PMapView>,
    categories: Seq<PMapCategoryView>,
) -> bool {
    exists|labels: Seq<Seq<char>>| #[trigger]
        are_labels(name_of, records, labels) && categories == categories_of(records, labels)
}

/// Those of `records` whose name in `labels` is `name`, in their order.
pub open spec fn with_label(records: Seq<PMapView>, labels: Seq<Seq<char>>, name: Seq<char>) -> Seq<
    PMapView,
>
    decreases records.len(),
{
    if records.len() == 0 {
        Seq::empty()
    } else if labels.last() == name {
        with_label(records.drop_last(), labels.drop_last(), name).push(records.last())
    } else {
        with_label(records.drop_last(), labels.drop_last(), name)
    }
}

/// Whether `categories` are the groups of `records` under the names
/// `labels`: no two categories share a name; each holds just the records
/// of its name, in their order, at least one, and has their size; and
/// every record has the category of its name.
pub open spec fn is_grouping(
    categories: Seq<PMapCategoryView>,
    records: Seq<PMapView>,
    labels: Seq<Seq<char>>,
) -> bool {
    &&& forall|i: int, j: int|
        0 <= i < j < categories.len() ==> (#[trigger] categories[i]).name != (
        #[trigger] categories[j]).name
    &&& forall|i: int|
        0 <= i < categories.len() ==> {
            let category = #[trigger] categories[i];
            &&& category.pages == with_label(records, labels, category.name)
            &&& category.pages.len() > 0
            &&& category.is_consistent()
        }
    &&& forall|k: int|
        0 <= k < records.len() ==> exists|i: int|
            0 <= i < categories.len() && (#[trigger] categories[i]).name == #[trigger] labels[k]
}

/// The first category of a name is a category of that name, and none
/// before it is.
pub proof fn lemma_find_category(categories: Seq<PMapCategoryView>, name: Seq<char>, from: int)
    requires
        0 <= from <= categories.len(),
    ensures
        from <= find_category(categories, name, from) <= categories.len(),
        find_category(categories, name, from) < categories.len() ==> categories[find_category(
            categories,
            name,
            from,
        )].name == name,
        forall|i: int|
            from <= i < find_category(categories, name, from) ==> (#[trigger] categories[i]).name
                != name,
    decreases categories.len() - from,
{
    if from < categories.len() && categories[from].name != name {
        lemma_find_category(categories, name, from + 1);
    }
}

/// Routing the records one by one groups them.
pub proof fn lemma_grouped_is_grouping(records: Seq<PMapView>, labels: Seq<Seq<char>>)
    requires
        labels.len() == records.len(),
    ensures
        is_grouping(grouped(records, labels), records, labels),
    decreases records.len(),
{
    if records.len() > 0 {
        let head = records.drop_last();
        let names = labels.drop_last();
        let record = records.last();
        let label = labels.last();
        let before = grouped(head, names);
        let after = grouped(records, labels);
        lemma_grouped_is_grouping(head, names);
        lemma_find_category(before, label, 0);
        let at = find_category(before, label, 0);
        assert(after == routed(before, record, label));
        assert forall|i: int| 0 <= i < after.len() implies {
            let category = #[trigger] after[i];
            &&& category.pages == with_label(records, labels, category.name)
            &&& category.pages.len() > 0
            &&& category.is_consistent()
        } by {
            if i < before.len() {
                let old = before[i];
                assert(old.pages == with_label(head, names, old.name));
                assert(old.is_consistent());
                if i == at {
                    assert(after[i] == old.with_page(record));
                    assert(after[i].pages.drop_last() == old.pages);
                    assert(old.name == label);
                    assert(with_label(records, labels, label) == with_label(head, names, label).push(
                        record,
                    ));
                    assert(after[i].pages == with_label(records, labels, after[i].name));
                    assert(total_size(after[i].pages) == total_size(old.pages)
                        + record.size_in_kibibyte);
                    assert(after[i].is_consistent());
                } else {
                    assert(after[i] == old);
                    if at < before.len() {
                        if i < at {
                            assert(before[i].name != before[at].name);
                        } else {
                            assert(before[at].name != before[i].name);
                        }
                    }
                    assert(old.name != label);
                    assert(with_label(records, labels, old.name) == with_label(
                        head,
                        names,
                        old.name,
                    ));
                }
            } else {
                assert(after[i] == PMapCategoryView::new(label).with_page(record));
                assert(after[i].pages.drop_last() == Seq::<PMapView>::empty());
                lemma_no_category_no_record(before, head, names, label);
                assert(with_label(records, labels, label) == with_label(head, names, label).push(
                    record,
                ));
                assert(total_size(after[i].pages) == total_size(Seq::<PMapView>::empty())
                    + record.size_in_kibibyte);
            }
        }
        assert forall|i: int, j: int| 0 <= i < j < after.len() implies (#[trigger] after[i]).name
            != (#[trigger] after[j]).name by {
            if j < before.len() {
                assert(before[i].name != before[j].name);
            } else {
                assert(before[i].name != label);
            }
        }
        assert forall|k: int| 0 <= k < records.len() implies exists|i: int|
            0 <= i < after.len() && (#[trigger] after[i]).name == #[trigger] labels[k] by {
            if k < head.len() {
                assert(names[k] == labels[k]);
                let i = choose|i: int|
                    0 <= i < before.len() && (#[trigger] before[i]).name == names[k];
                assert(after[i].name == labels[k]);
            } else if at < before.len() {
                assert(after[at].name == labels[k]);
            } else {
                assert(after[before.len() as int].name == labels[k]);
            }
        }
    }
}

/// Where no category has the name `name`, no record has it.
proof fn lemma_no_category_no_record(
    categories: Seq<PMapCategoryView>,
    records: Seq<PMapView>,
    labels: Seq<Seq<char>>,
    name: Seq<char>,
)
    requires
        labels.len() == records.len(),
        is_grouping(categories, records, labels),
        forall|i: int| 0 <= i < categories.len() ==> (#[trigger] categories[i]).name != name,
    ensures
        with_label(records, labels, name) == Seq::<PMapView>::empty(),
    decreases records.len(),
{
    assert forall|k: int| 0 <= k < labels.len() implies #[trigger] labels[k] != name by {
        let i = choose|i: int|
            0 <= i < categories.len() && (#[trigger] categories[i]).name == labels[k];
        assert(categories[i].name != name);
    }
    lemma_no_label_no_record(records, labels, name, labels);
}

/// Where no record has the name `name`, none is found under it.
proof fn lemma_no_label_no_record(
    records: Seq<PMapView>,
    labels: Seq<Seq<char>>,
    name: Seq<char>,
    all: Seq<Seq<char>>,
)
    requires
        labels.len() == records.len(),
        labels.is_prefix_of(all),
        forall|k: int| 0 <= k < all.len() ==> #[trigger] all[k] != name,
    ensures
        with_label(records, labels, name) == Seq::<PMapView>::empty(),
    decreases records.len(),
{
    if records.len() > 0 {
        assert(labels.last() == all[labels.len() - 1]);
        assert(labels.drop_last().is_prefix_of(all));
        lemma_no_label_no_record(records.drop_last(), labels.drop_last(), name, all);
    }
}

/// The categories of a process are the groups of its records, with the
/// largest first.
pub proof fn lemma_categories_of_is_grouping(records: Seq<PMapView>, labels: Seq<Seq<char>>)
    requires
        labels.len() == records.len(),
    ensures
        is_grouping(categories_of(records, labels), records, labels),
        is_largest_first::<PMapCategory>(categories_of(records, labels)),
{
    let groups = grouped(records, labels);
    let sorted = categories_of(records, labels);
    lemma_grouped_is_grouping(records, labels);
    lemma_largest_first_is_ordered::<PMapCategory>(groups);
    lemma_largest_first_is_permutation::<PMapCategory>(groups);
    assert forall|i: int| 0 <= i < sorted.len() implies groups.contains(#[trigger] sorted[i]) by {
        assert(sorted.contains(sorted[i]));
        vstd::seq_lib::to_multiset_contains(sorted, sorted[i]);
        vstd::seq_lib::to_multiset_contains(groups, sorted[i]);
    }
    assert forall|i: int| 0 <= i < groups.len() implies sorted.contains(#[trigger] groups[i]) by {
        assert(groups.contains(groups[i]));
        vstd::seq_lib::to_multiset_contains(sorted, groups[i]);
        vstd::seq_lib::to_multiset_contains(groups, groups[i]);
    }
    assert(groups.no_duplicates()) by {
        assert forall|i: int, j: int| 0 <= i < groups.len() && 0 <= j < groups.len() && i
            != j implies groups[i] != groups[j] by {
            if i < j {
                assert(groups[i].name != groups[j].name);
            } else {
                assert(groups[j].name != groups[i].name);
            }
        }
    }
    groups.lemma_multiset_has_no_duplicates();
    sorted.lemma_multiset_has_no_duplicates_conv();
    assert forall|i: int, j: int| 0 <= i < j < sorted.len() implies (#[trigger] sorted[i]).name != (
    #[trigger] sorted[j]).name by {
        assert(groups.contains(sorted[i]));
        assert(groups.contains(sorted[j]));
        let a = choose|a: int| 0 <= a < groups.len() && groups[a] == sorted[i];
        let b = choose|b: int| 0 <= b < groups.len() && groups[b] == sorted[j];
        assert(sorted[i] != sorted[j]);
        if a < b {
            assert(groups[a].name != groups[b].name);
        } else {
            assert(groups[b].name != groups[a].name);
        }
    }
    assert forall|i: int| 0 <= i < sorted.len() implies {
        let category = #[trigger] sorted[i];
        &&& category.pages == with_label(records, labels, category.name)
        &&& category.pages.len() > 0
        &&& category.is_consistent()
    } by {
        assert(groups.contains(sorted[i]));
        let a = choose|a: int| 0 <= a < groups.len() && groups[a] == sorted[i];
        assert(groups[a].is_consistent());
    }
    assert forall|k: int| 0 <= k < records.len() implies exists|i: int|
        0 <= i < sorted.len() && (#[trigger] sorted[i]).name == #[trigger] labels[k] by {
        let a = choose|a: int| 0 <= a < groups.len() && (#[trigger] groups[a]).name == labels[k];
        assert(sorted.contains(groups[a]));
        let i = choose|i: int| 0 <= i < sorted.len() && sorted[i] == groups[a];
        assert(sorted[i].name == labels[k]);
    }
}

/// Whether `name_of` has one name for each kind of mapping: whatever it
/// returns for a kind has the same text.
pub open spec fn names_one_way<F: Fn(MappingKind) -> String>(name_of: F) -> bool {
    forall|first: MappingKind, second: MappingKind, one: String, other: String|
        first@ == second@ && #[trigger] call_ensures(name_of, (first,), one) && #[trigger] call_ensures(
            name_of,
            (second,),
            other,
        ) ==> one@ == other@
}

/// Grouping the same records twice with a function that has one name for
/// each kind gives the same categories, in the same order and with the
/// same sizes.
pub proof fn lemma_categorization_is_unique<F: Fn(MappingKind) -> String>(
    name_of: F,
    records: Seq<PMapView>,
    first: Seq<PMapCategoryView>,
    second: Seq<PMapCategoryView>,
)
    requires
        names_one_way(name_of),
        is_categorization(name_of, records, first),
        is_categorization(name_of, records, second),
    ensures
        first == second,
{
    let one = choose|labels: Seq<Seq<char>>| #[trigger]
        are_labels(name_of, records, labels) && first == categories_of(records, labels);
    let other = choose|labels: Seq<Seq<char>>| #[trigger]
        are_labels(name_of, records, labels) && second == categories_of(records, labels);
    assert forall|i: int| 0 <= i < records.len() implies one[i] == other[i] by {
        assert(is_label(name_of, records[i].mapping_kind, one[i]));
        assert(is_label(name_of, records[i].mapping_kind, other[i]));
    }
    assert(one =~= other);
}

/// The sums over categories with one of them changed.
proof fn lemma_sums_of_update(
    categories: Seq<PMapCategoryView>,
    i: int,
    category: PMapCategoryView,
)
    requires
        0 <= i < categories.len(),
    ensures
        sizes_sum(categories.update(i, category)) + categories[i].total_size_in_kibibyte
            == sizes_sum(categories) + category.total_size_in_kibibyte,
        pages_sum(categories.update(i, category)) + categories[i].pages.len() == pages_sum(
            categories,
        ) + category.pages.len(),
    decreases categories.len(),
{
    let changed = categories.update(i, category);
    if i < categories.len() - 1 {
        lemma_sums_of_update(categories.drop_last(), i, category);
        assert(changed.drop_last() == categories.drop_last().update(i, category));
    } else {
        assert(changed.drop_last() == categories.drop_last());
    }
}

/// The sums over categories with one more put in at its place.
proof fn lemma_sums_of_inserted(sorted: Seq<PMapCategoryView>, category: PMapCategoryView)
    ensures
        sizes_sum(inserted::<PMapCategory>(sorted, category)) == sizes_sum(sorted)
            + category.total_size_in_kibibyte,
        pages_sum(inserted::<PMapCategory>(sorted, category)) == pages_sum(sorted)
            + category.pages.len(),
    decreases sorted.len(),
{
    if sorted.len() > 0 && sorted.last().total_size_in_kibibyte
        < category.total_size_in_kibibyte {
        let head = inserted::<PMapCategory>(sorted.drop_last(), category);
        lemma_sums_of_inserted(sorted.drop_last(), category);
        assert(head.push(sorted.last()).drop_last() == head);
    } else {
        assert(sorted.push(category).drop_last() == sorted);
    }
}

/// Putting categories in order changes none of their sums.
proof fn lemma_sums_of_sorted(categories: Seq<PMapCategoryView>)
    ensures
        sizes_sum(sorted_by_size(categories)) == sizes_sum(categories),
        pages_sum(sorted_by_size(categories)) == pages_sum(categories),
    decreases categories.len(),
{
    if categories.len() > 0 {
        lemma_sums_of_sorted(categories.drop_last());
        lemma_sums_of_inserted(sorted_by_size(categories.drop_last()), categories.last());
    }
}

/// The categories of a process hold each of its records once: together
/// they have the size of all the records, and as many mappings as there
/// are records.
pub proof fn lemma_categories_of_sums(records: Seq<PMapView>, labels: Seq<Seq<char>>)
    requires
        labels.len() == records.len(),
    ensures
        sizes_sum(categories_of(records, labels)) == total_size(records),
        pages_sum(categories_of(records, labels)) == records.len(),
        sizes_sum(grouped(records, labels)) == total_size(records),
        pages_sum(grouped(records, labels)) == records.len(),
    decreases records.len(),
{
    lemma_sums_of_sorted(grouped(records, labels));
    if records.len() > 0 {
        let before = grouped(records.drop_last(), labels.drop_last());
        let record = records.last();
        let label = labels.last();
        lemma_categories_of_sums(records.drop_last(), labels.drop_last());
        lemma_find_category(before, label, 0);
        let at = find_category(before, label, 0);
        if at < before.len() {
            lemma_sums_of_update(before, at, before[at].with_page(record));
        } else {
            let added = PMapCategoryView::new(label).with_page(record);
            assert(before.push(added).drop_last() == before);
        }
    }
}

/// The index of the first of `labels` that is `name`, or the length where
/// none is.
pub open spec fn first_record(labels: Seq<Seq<char>>, name: Seq<char>) -> int
    decreases labels.len(),
{
    if labels.len() == 0 {
        0
    } else {
        let first = first_record(labels.drop_last(), name);
        if first < labels.len() - 1 {
            first
        } else if labels.last() == name {
            labels.len() - 1
        } else {
            labels.len() as int
        }
    }
}

/// The first record of a name is a record of that name, and none before
/// it is; a name that no record has has none.
pub proof fn lemma_first_record(labels: Seq<Seq<char>>, name: Seq<char>)
    ensures
        0 <= first_record(labels, name) <= labels.len(),
        first_record(labels, name) < labels.len() ==> labels[first_record(labels, name)] == name,
        forall|k: int| 0 <= k < first_record(labels, name) ==> #[trigger] labels[k] != name,
    decreases labels.len(),
{
    if labels.len() > 0 {
        lemma_first_record(labels.drop_last(), name);
        assert forall|k: int| 0 <= k < first_record(labels, name) implies #[trigger] labels[k]
            != name by {
            if k < labels.len() - 1 {
                assert(labels.drop_last()[k] == labels[k]);
            }
        }
    }
}

/// Whether `categories` stand in the order in which the first records of
/// their names stand in `labels`.
pub open spec fn is_in_order_of_first_records(
    categories: Seq<PMapCategoryView>,
    labels: Seq<Seq<char>>,
) -> bool {
    forall|i: int, j: int|
        0 <= i < j < categories.len() ==> first_record(labels, (#[trigger] categories[i]).name)
            < first_record(labels, (#[trigger] categories[j]).name)
}

/// Routing the records one by one leaves the categories in the order in
/// which their first records came.
pub proof fn lemma_grouped_is_in_order_of_first_records(
    records: Seq<PMapView>,
    labels: Seq<Seq<char>>,
)
    requires
        labels.len() == records.len(),
    ensures
        is_in_order_of_first_records(grouped(records, labels), labels),
        forall|i: int|
            0 <= i < grouped(records, labels).len() ==> first_record(
                labels,
                (#[trigger] grouped(records, labels)[i]).name,
            ) < labels.len(),
    decreases records.len(),
{
    if records.len() > 0 {
        let head = records.drop_last();
        let names = labels.drop_last();
        let label = labels.last();
        let before = grouped(head, names);
        let after = grouped(records, labels);
        lemma_grouped_is_in_order_of_first_records(head, names);
        lemma_find_category(before, label, 0);
        lemma_first_record(names, label);
        let at = find_category(before, label, 0);
        assert forall|i: int| 0 <= i < after.len() implies first_record(
            labels,
            (#[trigger] after[i]).name,
        ) < labels.len() && (i < before.len() ==> first_record(labels, after[i].name)
            == first_record(names, before[i].name)) by {
            if i < before.len() {
                assert(after[i].name == before[i].name);
                assert(first_record(names, before[i].name) < names.len());
            } else {
                lemma_first_record(labels, label);
            }
        }
        assert forall|i: int, j: int| 0 <= i < j < after.len() implies first_record(
            labels,
            (#[trigger] after[i]).name,
        ) < first_record(labels, (#[trigger] after[j]).name) by {
            if j < before.len() {
                assert(first_record(names, before[i].name) < first_record(names, before[j].name));
            } else {
                assert(at == before.len());
                assert(after[j].name == label);
                assert(first_record(names, before[i].name) < names.len());
                if first_record(names, label) < names.len() {
                    lemma_grouped_is_grouping(head, names);
                    let k = first_record(names, label);
                    let c = choose|c: int|
                        0 <= c < before.len() && (#[trigger] before[c]).name == names[k];
                    assert(before[c].name != label);
                }
            }
        }
    }
}

/// Whether `categories` stand with the larger before the smaller, and
/// those of one size in the order in which the first records of their
/// names stand in `labels`.
pub open spec fn is_ranked(categories: Seq<PMapCategoryView>, labels: Seq<Seq<char>>) -> bool {
    forall|i: int, j: int|
        0 <= i < j < categories.len() ==> {
            let first = #[trigger] categories[i];
            let second = #[trigger] categories[j];
            ||| first.total_size_in_kibibyte > second.total_size_in_kibibyte
            ||| first.total_size_in_kibibyte == second.total_size_in_kibibyte && first_record(
                labels,
                first.name,
            ) < first_record(labels, second.name)
        }
}

/// Putting categories in order that stand as their first records came
/// ranks them.
proof fn lemma_sorted_is_ranked(groups: Seq<PMapCategoryView>, labels: Seq<Seq<char>>)
    requires
        is_in_order_of_first_records(groups, labels),
    ensures
        is_ranked(sorted_by_size(groups), labels),
    decreases groups.len(),
{
    if groups.len() > 0 {
        let head = groups.drop_last();
        let sorted = sorted_by_size(head);
        let last = groups.last();
        assert forall|i: int, j: int| 0 <= i < j < head.len() implies first_record(
            labels,
            (#[trigger] head[i]).name,
        ) < first_record(labels, (#[trigger] head[j]).name) by {
            assert(head[i] == groups[i] && head[j] == groups[j]);
        }
        lemma_sorted_is_ranked(head, labels);
        lemma_largest_first_is_permutation::<PMapCategory>(head);
        let at = lemma_place_exists::<PMapCategory>(sorted, last);
        lemma_inserted_at::<PMapCategory>(sorted, last, at);
        let out = sorted.insert(at, last);
        assert(out == sorted_by_size(groups));
        assert forall|i: int, j: int| 0 <= i < j < out.len() implies {
            let first = #[trigger] out[i];
            let second = #[trigger] out[j];
            ||| first.total_size_in_kibibyte > second.total_size_in_kibibyte
            ||| first.total_size_in_kibibyte == second.total_size_in_kibibyte && first_record(
                labels,
                first.name,
            ) < first_record(labels, second.name)
        } by {
            if j < at {
                assert(out[i] == sorted[i] && out[j] == sorted[j]);
            } else if j == at {
                assert(out[i] == sorted[i]);
                if i < at - 1 {
                    assert(sorted[i].total_size_in_kibibyte >= sorted[at
                        - 1].total_size_in_kibibyte);
                }
                assert(sorted.contains(sorted[i]));
                vstd::seq_lib::to_multiset_contains(sorted, sorted[i]);
                vstd::seq_lib::to_multiset_contains(head, sorted[i]);
                let a = choose|a: int| 0 <= a < head.len() && head[a] == sorted[i];
                assert(groups[a] == sorted[i]);
                assert(first_record(labels, groups[a].name) < first_record(
                    labels,
                    groups[groups.len() - 1].name,
                ));
            } else if i == at {
                assert(out[j] == sorted[j - 1]);
            } else if i < at {
                assert(out[i] == sorted[i] && out[j] == sorted[j - 1]);
            } else {
                assert(out[i] == sorted[i - 1] && out[j] == sorted[j - 1]);
            }
        }
    }
}

/// The categories of a process stand with the larger before the smaller,
/// and those of one size in the order in which their first records came.
pub proof fn lemma_categories_of_is_ranked(records: Seq<PMapView>, labels: Seq<Seq<char>>)
    requires
        labels.len() == records.len(),
    ensures
        is_ranked(categories_of(records, labels), labels),
        is_in_order_of_first_records(grouped(records, labels), labels),
{
    lemma_grouped_is_in_order_of_first_records(records, labels);
    lemma_sorted_is_ranked(grouped(records, labels), labels);
}

} // verus!
