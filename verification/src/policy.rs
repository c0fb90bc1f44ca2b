//! The names under which the mappings of a process are grouped.

use crate::category::are_labels;
use crate::category::categories_of;
use crate::category::fixed_label;
use crate::category::is_grouping;
use crate::category::is_ranked;
use crate::category::lemma_categories_of_is_grouping;
use crate::category::lemma_categories_of_is_ranked;
use crate::category::lemma_categories_of_sums;
use crate::category::lemma_total_size_bound;
use crate::category::pages_sum;
use crate::category::sizes_sum;
use crate::category::total_size;
use crate::category::PMapCategory;
use crate::category::PMapCategoryVec;
use crate::mapping_kind::MappingKind;
use crate::mapping_kind::MappingKindView;
use crate::order::is_largest_first;
use crate::pmap::PMapVec;
use crate::pmap::PMapView;
use crate::text::chars_of;
use crate::text::contains;
use crate::text::contains_text;
use crate::text::strip_text;
use vstd::prelude::*;
use vstd::string::StringExecFns;

verus! {

/// The name of the category of what is called `full_name`, a file or a
/// named anonymous mapping: `.NET Libraries` below `/usr/share/dotnet`;
/// else `JIT Code` where the name holds `memfd:doublemapper (deleted)`;
/// else `Application` below `application_folder`, where one is given; else
/// the name itself.
pub open spec fn lookup_name(full_name: Seq<char>, application_folder: Option<Seq<char>>) -> Seq<
    char,
> {
    if "/usr/share/dotnet"@.is_prefix_of(full_name) {
        ".NET Libraries"@
    } else if contains_text(full_name, "memfd:doublemapper (deleted)"@) {
        "JIT Code"@
    } else if application_folder is Some && application_folder->0.is_prefix_of(full_name) {
        "Application"@
    } else {
        full_name
    }
}

/// The name of the category of a mapping of the kind `kind`, by the kind
/// alone: that of its file or of its name; `Anonymous` for an anonymous
/// mapping without a name; empty for a file without a path and for the
/// five fixed kinds.
pub open spec fn category_name(kind: MappingKindView, application_folder: Option<Seq<char>>) -> Seq<
    char,
> {
    match kind {
        MappingKindView::File(path) => if path.len() > 0 {
            lookup_name(path, application_folder)
        } else {
            Seq::empty()
        },
        MappingKindView::AnonymousPrivate(Some(name)) => lookup_name(name, application_folder),
        MappingKindView::AnonymousPrivate(None) => "Anonymous"@,
        MappingKindView::AnonymousShared(Some(name)) => lookup_name(name, application_folder),
        MappingKindView::AnonymousShared(None) => "Anonymous"@,
        _ => Seq::empty(),
    }
}

/// The text of a folder, where there is one.
pub open spec fn folder_text(application_folder: Option<String>) -> Option<Seq<char>> {
    match application_folder {
        Some(folder) => Some(folder@),
        None => None,
    }
}

/// Computes [`lookup_name`].
fn file_lookup(full_name: &str, application_folder: &Option<String>) -> (name: String)
    ensures
        name@ == lookup_name(full_name@, folder_text(*application_folder)),
{
    let chars = chars_of(full_name);
    assert(chars@.subrange(0, chars@.len() as int) == full_name@);
    if strip_text(chars.as_slice(), 0, chars.len(), "/usr/share/dotnet").is_some() {
        return String::from_str(".NET Libraries");
    }
    if contains(chars.as_slice(), "memfd:doublemapper (deleted)") {
        return String::from_str("JIT Code");
    }
    if let Some(folder) = application_folder {
        if strip_text(chars.as_slice(), 0, chars.len(), folder.as_str()).is_some() {
            return String::from_str("Application");
        }
    }
    String::from_str(full_name)
}

/// The name of the category of a mapping, by its kind alone.
pub fn category_lookup(mapping: &MappingKind, application_folder: &Option<String>) -> (name: String)
    ensures
        name@ == category_name(mapping@, folder_text(*application_folder)),
{
    match mapping {
        MappingKind::File(file) => {
            let full_name = file.full_name();
            if full_name.as_str().unicode_len() > 0 {
                file_lookup(full_name.as_str(), application_folder)
            } else {
                String::new()
            }
        },
        MappingKind::AnonymousPrivate(Some(name)) => file_lookup(name.as_str(), application_folder),
        MappingKind::AnonymousPrivate(None) => String::from_str("Anonymous"),
        MappingKind::AnonymousShared(Some(name)) => file_lookup(name.as_str(), application_folder),
        MappingKind::AnonymousShared(None) => String::from_str("Anonymous"),
        _ => String::new(),
    }
}

/// The name of the category of a mapping of the kind `kind`.
pub open spec fn label_text(kind: MappingKindView, application_folder: Option<Seq<char>>) -> Seq<
    char,
> {
    match fixed_label(kind) {
        Some(label) => label,
        None => category_name(kind, application_folder),
    }
}

/// The names of the categories of `records`, one for each, in order.
pub open spec fn label_texts(records: Seq<PMapView>, application_folder: Option<Seq<char>>) -> Seq<
    Seq<char>,
> {
    records.map_values(|record: PMapView| label_text(record.mapping_kind, application_folder))
}

/// Groups `memory_pages` into categories, each mapping under the name that
/// [`label_text`] gives its kind, and puts the largest category first.
pub fn get_categories_from_memory_pages(
    memory_pages: PMapVec,
    application_folder: Option<String>,
) -> (categories: PMapCategoryVec)
    ensures
        categories@ == categories_of(
            memory_pages@,
            label_texts(memory_pages@, folder_text(application_folder)),
        ),
        is_grouping(
            categories@,
            memory_pages@,
            label_texts(memory_pages@, folder_text(application_folder)),
        ),
        is_largest_first::<PMapCategory>(categories@),
        is_ranked(categories@, label_texts(memory_pages@, folder_text(application_folder))),
        sizes_sum(categories@) == total_size(memory_pages@),
        sizes_sum(categories@) <= u128::MAX,
        pages_sum(categories@) == memory_pages@.len(),
{
    let ghost folder = folder_text(application_folder);
    let ghost records = memory_pages@;
    let count = memory_pages.0.len();
    let given = &application_folder;
    let name_of = |mapping: MappingKind| -> (name: String)
        ensures
            name@ == category_name(mapping@, folder_text(*given)),
        { category_lookup(&mapping, given) };
    let r = PMapCategory::get_categories_from_memory_pages(memory_pages, &name_of);
    proof {
        let labels = choose|labels: Seq<Seq<char>>| #[trigger]
            are_labels(name_of, records, labels) && r->Ok_0@ == categories_of(
                records,
                labels,
            );
        assert(labels =~= label_texts(records, folder));
        lemma_categories_of_is_grouping(records, labels);
        lemma_categories_of_is_ranked(records, labels);
        lemma_categories_of_sums(records, labels);
        lemma_total_size_bound(records);
        assert(count * u64::MAX <= u128::MAX) by (nonlinear_arith)
            requires
                count <= u64::MAX,
        ;
    }
    r.unwrap()
}

} // verus!
