use pmap_analyzer::category_lookup;
use pmap_analyzer::get_categories_from_memory_pages;
use pmap_analyzer::FileInfo;
use pmap_analyzer::MappingKind;
use pmap_analyzer::PMap;
use pmap_analyzer::PMapCategory;
use pmap_analyzer::PMapCategoryVec;
use pmap_analyzer::PMapVec;
use pmap_analyzer::Totals;

#[test]
fn test_pmap_category_mapping_heap() {
    let memory_pages = vec![
        PMap {
            mapping_kind: MappingKind::Heap,
            size_in_kibibyte: 10,
            ..Default::default()
        },
        PMap {
            mapping_kind: MappingKind::Stack,
            size_in_kibibyte: 20,
            ..Default::default()
        },
        PMap {
            mapping_kind: MappingKind::VirtualSystemCall,
            size_in_kibibyte: 30,
            ..Default::default()
        },
        PMap {
            mapping_kind: MappingKind::Heap,
            size_in_kibibyte: 40,
            ..Default::default()
        },
        PMap {
            mapping_kind: MappingKind::AnonymousPrivate(None),
            size_in_kibibyte: 10,
            ..Default::default()
        },
    ];

    let categories = get_categories_from_memory_pages(PMapVec(memory_pages), None);
    assert_eq!(categories.0.len(), 4);
    assert_eq!(categories.0[0].name, "[heap]");
    assert_eq!(categories.0[1].name, "[vsyscall]");
    assert_eq!(categories.0[2].name, "[stack]");
    assert_eq!(categories.0[0].total_size_in_kibibyte, 50);
    assert_eq!(categories.0[0].pages.len(), 2);
}

#[test]
fn categories_of_the_five_records_in_full() {
    let mut memory_pages = Vec::new();
    for (address, kind, size) in [
        (1u64, MappingKind::Heap, 10u64),
        (2, MappingKind::Stack, 20),
        (3, MappingKind::VirtualSystemCall, 30),
        (4, MappingKind::Heap, 40),
        (5, MappingKind::AnonymousPrivate(None), 10),
    ] {
        memory_pages.push(PMap { address, mapping_kind: kind, size_in_kibibyte: size, ..Default::default() });
    }
    let categories = get_categories_from_memory_pages(PMapVec(memory_pages), None);
    let seen: Vec<(String, u128, Vec<u64>)> = categories
        .0
        .iter()
        .map(|category| {
            (
                category.name.clone(),
                category.total_size_in_kibibyte,
                category.pages.iter().map(|page| page.address).collect(),
            )
        })
        .collect();
    assert_eq!(
        seen,
        vec![
            ("[heap]".to_string(), 50, vec![1, 4]),
            ("[vsyscall]".to_string(), 30, vec![3]),
            ("[stack]".to_string(), 20, vec![2]),
            ("Anonymous".to_string(), 10, vec![5]),
        ]
    );
    assert_eq!(categories.totals(), Some(Totals { size_in_kibibyte: 110, pages: 5 }));
}

#[test]
fn categories_of_nothing_are_none() {
    let categories = get_categories_from_memory_pages(PMapVec(Vec::new()), None);
    assert_eq!(categories.0.len(), 0);
    assert_eq!(categories.totals(), Some(Totals { size_in_kibibyte: 0, pages: 0 }));
    let categories =
        PMapCategory::get_categories_from_memory_pages(PMapVec(Vec::new()), &|_kind: MappingKind| String::new());
    assert_eq!(categories, Ok(PMapCategoryVec(Vec::new())));
}

#[test]
fn categories_of_one_size_keep_their_order() {
    let mut memory_pages = Vec::new();
    for (name, size) in [("c", 5u64), ("a", 7), ("b", 5), ("d", 7), ("c", 2), ("e", 5), ("b", 2)] {
        memory_pages.push(PMap {
            mapping_kind: MappingKind::File(FileInfo::new(name)),
            size_in_kibibyte: size,
            ..Default::default()
        });
    }
    let categories = get_categories_from_memory_pages(PMapVec(memory_pages), None);
    let seen: Vec<(String, u128)> = categories
        .0
        .iter()
        .map(|category| (category.name.clone(), category.total_size_in_kibibyte))
        .collect();
    assert_eq!(
        seen,
        vec![
            ("c".to_string(), 7),
            ("a".to_string(), 7),
            ("b".to_string(), 7),
            ("d".to_string(), 7),
            ("e".to_string(), 5),
        ]
    );
}

#[test]
fn categories_twice_are_the_same() {
    let mut memory_pages = Vec::new();
    for (kind, size) in [
        (MappingKind::File(FileInfo::new("/app/bin/server")), 100u64),
        (MappingKind::Heap, 30),
        (MappingKind::File(FileInfo::new("/usr/share/dotnet/shared/libcoreclr.so")), 100),
        (MappingKind::AnonymousPrivate(Some("bar".into())), 30),
        (MappingKind::File(FileInfo::new("/app/lib/a.so")), 1),
        (MappingKind::AnonymousShared(None), 30),
        (MappingKind::File(FileInfo::new("/memfd:doublemapper (deleted)")), 101),
    ] {
        memory_pages.push(PMap { mapping_kind: kind, size_in_kibibyte: size, ..Default::default() });
    }
    let pages = PMapVec(memory_pages);
    let first = get_categories_from_memory_pages(pages.clone(), Some("/app".to_string()));
    let second = get_categories_from_memory_pages(pages.clone(), Some("/app".to_string()));
    assert_eq!(first, second);
    let names: Vec<(&str, u128)> =
        first.0.iter().map(|category| (category.name.as_str(), category.total_size_in_kibibyte)).collect();
    assert_eq!(
        names,
        vec![
            ("Application", 101),
            ("JIT Code", 101),
            (".NET Libraries", 100),
            ("[heap]", 30),
            ("bar", 30),
            ("Anonymous", 30),
        ]
    );
    let by_hand = PMapCategory::get_categories_from_memory_pages(pages.clone(), &|kind: MappingKind| {
        category_lookup(&kind, &Some("/app".to_string()))
    });
    assert_eq!(by_hand, Ok(first));
}

#[test]
fn categories_ask_only_where_the_kind_does_not_decide() {
    let mut memory_pages = Vec::new();
    for kind in [
        MappingKind::Heap,
        MappingKind::Stack,
        MappingKind::VirtualVariables,
        MappingKind::VirtualDynamicSharedObject,
        MappingKind::VirtualSystemCall,
        MappingKind::AnonymousPrivate(None),
        MappingKind::AnonymousShared(None),
        MappingKind::AnonymousPrivate(Some("p".into())),
        MappingKind::AnonymousShared(Some("s".into())),
        MappingKind::File(FileInfo::new("f")),
    ] {
        memory_pages.push(PMap { mapping_kind: kind, size_in_kibibyte: 1, ..Default::default() });
    }
    let categories = PMapCategory::get_categories_from_memory_pages(PMapVec(memory_pages), &|kind: MappingKind| {
        match kind {
            MappingKind::AnonymousPrivate(Some(name)) => format!("private {}", name),
            MappingKind::AnonymousShared(Some(name)) => format!("shared {}", name),
            MappingKind::File(file) => format!("file {}", file.full_name()),
            _ => panic!("asked for {:?}", kind),
        }
    })
    .unwrap();
    let seen: Vec<(&str, u128, usize)> = categories
        .0
        .iter()
        .map(|category| (category.name.as_str(), category.total_size_in_kibibyte, category.pages.len()))
        .collect();
    assert_eq!(
        seen,
        vec![
            ("Anonymous", 2, 2),
            ("[heap]", 1, 1),
            ("[stack]", 1, 1),
            ("[vvar]", 1, 1),
            ("[vdso]", 1, 1),
            ("[vsyscall]", 1, 1),
            ("private p", 1, 1),
            ("shared s", 1, 1),
            ("file f", 1, 1),
        ]
    );
}

#[test]
fn categorize_under_given_names() {
    let mut memory_pages = Vec::new();
    for (address, size) in [(1u64, 3u64), (2, 4), (3, 5), (4, 6)] {
        memory_pages.push(PMap { address, size_in_kibibyte: size, ..Default::default() });
    }
    let labels = vec!["x".to_string(), "y".to_string(), "x".to_string(), "z".to_string()];
    let categories = PMapCategory::categorize(PMapVec(memory_pages), &labels);
    let seen: Vec<(&str, u128, Vec<u64>)> = categories
        .0
        .iter()
        .map(|category| {
            (
                category.name.as_str(),
                category.total_size_in_kibibyte,
                category.pages.iter().map(|page| page.address).collect(),
            )
        })
        .collect();
    assert_eq!(seen, vec![("x", 8, vec![1, 3]), ("z", 6, vec![4]), ("y", 4, vec![2])]);
}

#[test]
fn category_grows_page_by_page() {
    let mut category = PMapCategory::new("name".to_string());
    assert_eq!(category.name, "name");
    assert_eq!(category.total_size_in_kibibyte, 0);
    assert_eq!(category.pages.len(), 0);
    category.add_page(PMap { address: 1, size_in_kibibyte: 7, ..Default::default() });
    category.add_page(PMap { address: 2, size_in_kibibyte: 0, ..Default::default() });
    category.add_page(PMap { address: 3, size_in_kibibyte: 5, ..Default::default() });
    assert_eq!(category.total_size_in_kibibyte, 12);
    let addresses: Vec<u64> = category.pages.iter().map(|page| page.address).collect();
    assert_eq!(addresses, vec![1, 2, 3]);
}

#[test]
fn categories_route_and_sort() {
    let mut categories = PMapCategoryVec(Vec::new());
    categories.route(PMap { size_in_kibibyte: 1, ..Default::default() }, "a".to_string());
    categories.route(PMap { size_in_kibibyte: 5, ..Default::default() }, "b".to_string());
    categories.route(PMap { size_in_kibibyte: 2, ..Default::default() }, "a".to_string());
    categories.route(PMap { size_in_kibibyte: 9, ..Default::default() }, "c".to_string());
    let names: Vec<&str> = categories.0.iter().map(|category| category.name.as_str()).collect();
    assert_eq!(names, vec!["a", "b", "c"]);
    categories.sort_by_size();
    let seen: Vec<(&str, u128)> =
        categories.0.iter().map(|category| (category.name.as_str(), category.total_size_in_kibibyte)).collect();
    assert_eq!(seen, vec![("c", 9), ("b", 5), ("a", 3)]);
}

#[test]
fn categories_larger_than_64_bits_can_hold() {
    let mut memory_pages = Vec::new();
    for (address, kind, size) in [
        (1u64, MappingKind::Heap, u64::MAX),
        (2, MappingKind::Stack, u64::MAX),
        (3, MappingKind::Heap, u64::MAX),
        (4, MappingKind::Heap, 2),
    ] {
        memory_pages.push(PMap { address, mapping_kind: kind, size_in_kibibyte: size, ..Default::default() });
    }
    let pages = PMapVec(memory_pages);
    let categories = get_categories_from_memory_pages(pages.clone(), None);
    let seen: Vec<(&str, u128, usize)> = categories
        .0
        .iter()
        .map(|category| (category.name.as_str(), category.total_size_in_kibibyte, category.pages.len()))
        .collect();
    assert_eq!(
        seen,
        vec![("[heap]", 2 * (u64::MAX as u128) + 2, 3), ("[stack]", u64::MAX as u128, 1)]
    );
    assert_eq!(
        categories.totals(),
        Some(Totals { size_in_kibibyte: 3 * (u64::MAX as u128) + 2, pages: 4 })
    );
    let again = PMapCategory::get_categories_from_memory_pages(pages.clone(), &|_kind: MappingKind| String::new());
    assert_eq!(again, Ok(categories));
}

#[test]
fn totals_where_the_sum_can_be_held() {
    let mut categories = PMapCategoryVec(Vec::new());
    categories.0.push(PMapCategory { name: "a".to_string(), total_size_in_kibibyte: u128::MAX - 1, pages: vec![PMap::default()] });
    categories.0.push(PMapCategory { name: "b".to_string(), total_size_in_kibibyte: 1, pages: vec![] });
    assert_eq!(categories.totals(), Some(Totals { size_in_kibibyte: u128::MAX, pages: 1 }));
    categories.0.push(PMapCategory { name: "c".to_string(), total_size_in_kibibyte: 1, pages: vec![PMap::default()] });
    assert_eq!(categories.totals(), None);
}

#[test]
fn names_by_the_kind_of_mapping() {
    let folder = Some("/app".to_string());
    let file = |path: &str| MappingKind::File(FileInfo::new(path));
    assert_eq!(category_lookup(&file("/usr/share/dotnet/shared/x.so"), &folder), ".NET Libraries");
    assert_eq!(category_lookup(&file("/usr/share/dotnet"), &folder), ".NET Libraries");
    assert_eq!(category_lookup(&file("/usr/share/dotne"), &folder), "/usr/share/dotne");
    assert_eq!(category_lookup(&file("/memfd:doublemapper (deleted)"), &folder), "JIT Code");
    assert_eq!(category_lookup(&file("x memfd:doublemapper (deleted) y"), &folder), "JIT Code");
    assert_eq!(category_lookup(&file("memfd:doublemapper (deleted"), &folder), "memfd:doublemapper (deleted");
    assert_eq!(category_lookup(&file("/app/bin/server"), &folder), "Application");
    assert_eq!(category_lookup(&file("/application"), &folder), "Application");
    assert_eq!(category_lookup(&file("/ap"), &folder), "/ap");
    assert_eq!(category_lookup(&file("/lib/app/x"), &folder), "/lib/app/x");
    assert_eq!(category_lookup(&file("/app/bin/server"), &None), "/app/bin/server");
    assert_eq!(category_lookup(&file("/app/bin/server"), &Some(String::new())), "Application");
    assert_eq!(category_lookup(&file(""), &folder), "");
    assert_eq!(
        category_lookup(&file("/usr/share/dotnet/memfd:doublemapper (deleted)"), &Some("/usr".to_string())),
        ".NET Libraries"
    );
    assert_eq!(
        category_lookup(&file("/app/memfd:doublemapper (deleted)"), &folder),
        "JIT Code"
    );
    assert_eq!(category_lookup(&MappingKind::AnonymousPrivate(None), &folder), "Anonymous");
    assert_eq!(category_lookup(&MappingKind::AnonymousShared(None), &folder), "Anonymous");
    assert_eq!(category_lookup(&MappingKind::AnonymousPrivate(Some("foo".into())), &folder), "foo");
    assert_eq!(
        category_lookup(&MappingKind::AnonymousShared(Some("/app/shm".into())), &folder),
        "Application"
    );
    assert_eq!(category_lookup(&MappingKind::Heap, &folder), "");
    assert_eq!(category_lookup(&MappingKind::Stack, &folder), "");
    assert_eq!(category_lookup(&MappingKind::VirtualVariables, &folder), "");
}
