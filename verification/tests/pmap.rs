use pmap_analyzer::BitFlags;
use pmap_analyzer::Field;
use pmap_analyzer::FileInfo;
use pmap_analyzer::MappingKind;
use pmap_analyzer::PMap;
use pmap_analyzer::PMapVec;
use pmap_analyzer::ParseError;
use pmap_analyzer::Permissions;
use pmap_analyzer::VirtualMemoryFlags;
use std::str::FromStr;

#[test]
fn pmap_from_str_test() {
    let input = "7faf68872000 rw-p 02743000  00:01    4128         4              4           4      1      2         3            4            5             6             7          8         9        1             2              3             4              5               6    7       8      9          -1 rd ex sh mr mw me ms sd memfd:doublemapper (deleted)";
    let result = PMap::from_str(input).unwrap();
    assert_eq!(result.address, 0x7faf68872000);
    let mut permissions = BitFlags::<Permissions>::empty();
    permissions.insert(Permissions::Read);
    permissions.insert(Permissions::Write);
    permissions.insert(Permissions::Private);
    assert_eq!(result.permissions, permissions);
    assert_eq!(result.offset, 0x02743000);
    assert_eq!(result.device_major, 0x00);
    assert_eq!(result.device_minor, 0x01);
    assert_eq!(result.inode, 4128);
    assert_eq!(result.size_in_kibibyte, 4);
    assert_eq!(result.kernel_page_size_in_kibibyte, 4);
    assert_eq!(result.mmu_page_size_in_kibibyte, 4);
    assert_eq!(result.resident_set_size_in_kibibyte, 1);
    assert_eq!(result.proportional_share_size_in_kibibyte, 2);
    assert_eq!(result.proportional_share_size_dirty_in_kibibyte, 3);
    assert_eq!(result.shared_clean_in_kibibyte, 4);
    assert_eq!(result.shared_dirty_in_kibibyte, 5);
    assert_eq!(result.private_clean_in_kibibyte, 6);
    assert_eq!(result.private_dirty_in_kibibyte, 7);
    assert_eq!(result.referenced_in_kibibyte, 8);
    assert_eq!(result.anonymous_in_kibibyte, 9);
    assert_eq!(result.lazy_free_in_kibibyte, 1);
    assert_eq!(result.anonymous_huge_pages_in_kibibyte, 2);
    assert_eq!(
        result.shared_memory_associated_with_huge_pages_in_kibibyte,
        3
    );
    assert_eq!(result.file_pme_mapped_in_kibibyte, 4);
    assert_eq!(result.shared_hugetlb_in_kibibyte, 5);
    assert_eq!(result.private_hugetlb_in_kibibyte, 6);
    assert_eq!(result.swap_in_kibibyte, 7);
    assert_eq!(result.swap_pss_in_kibibyte, 8);
    assert_eq!(result.locked_in_kibibyte, 9);
    assert_eq!(result.transparent_huge_page_eligible, true);
    let mut flags = BitFlags::<VirtualMemoryFlags>::empty();
    flags.insert(VirtualMemoryFlags::Readable);
    flags.insert(VirtualMemoryFlags::Executable);
    flags.insert(VirtualMemoryFlags::Shared);
    flags.insert(VirtualMemoryFlags::MayRead);
    flags.insert(VirtualMemoryFlags::MayWrite);
    flags.insert(VirtualMemoryFlags::MayExecute);
    flags.insert(VirtualMemoryFlags::MayShare);
    flags.insert(VirtualMemoryFlags::SoftDirty);
    assert_eq!(result.virtual_memory_flags, flags);
    assert_eq!(
        result.mapping_kind,
        MappingKind::File(FileInfo::new("memfd:doublemapper (deleted)"))
    );
}

#[test]
fn pmap_from_the_line_with_single_spaces() {
    let input = "7faf68872000 rw-p 02743000 00:01 4128 4 4 4 1 2 3 4 5 6 7 8 9 1 2 3 4 5 6 7 8 9 -1 rd ex sh mr mw me ms sd memfd:doublemapper (deleted)";
    let result = PMap::from_str(input).unwrap();
    assert_eq!(result.address, 0x7faf68872000);
    assert_eq!(result.permissions.encode(), "rw-p");
    assert_eq!(result.transparent_huge_page_eligible, true);
    assert_eq!(
        result.mapping_kind,
        MappingKind::File(FileInfo::new("memfd:doublemapper (deleted)"))
    );
}

#[test]
fn pmap_descriptor_keeps_its_white_space() {
    let input = "1000 r--p 0 0:0 0 4 4 4 0 0 0 0 0 0 0 0 0 0 0 0 0 0 0 0 0 0 0 rd /tmp/a  b\tc   ";
    let result = PMap::from_str(input).unwrap();
    assert_eq!(result.mapping_kind, MappingKind::File(FileInfo::new("/tmp/a  b\tc")));
    assert_eq!(result.transparent_huge_page_eligible, false);
    assert_eq!(
        result.virtual_memory_flags,
        BitFlags::from_flag(VirtualMemoryFlags::Readable)
    );
}

#[test]
fn pmap_descriptor_starts_at_its_own_word() {
    let input = "7f r--p 0 0:0 0 4 4 4 0 0 0 0 0 0 0 0 0 0 0 0 0 0 0 0 0 0 0 rd 7f";
    let result = PMap::from_str(input).unwrap();
    assert_eq!(result.address, 0x7f);
    assert_eq!(result.mapping_kind, MappingKind::File(FileInfo::new("7f")));
}

#[test]
fn pmap_words_behind_the_descriptor_belong_to_it() {
    let input = "1000 r--p 0 0:0 0 4 4 4 0 0 0 0 0 0 0 0 0 0 0 0 0 0 0 0 0 0 0 rd wr /lib/x rd wr";
    let result = PMap::from_str(input).unwrap();
    let mut flags = BitFlags::<VirtualMemoryFlags>::empty();
    flags.insert(VirtualMemoryFlags::Readable);
    flags.insert(VirtualMemoryFlags::Writeable);
    assert_eq!(result.virtual_memory_flags, flags);
    assert_eq!(result.mapping_kind, MappingKind::File(FileInfo::new("/lib/x rd wr")));
}

#[test]
fn pmap_without_a_descriptor_is_anonymous() {
    let input = "  1000 rw-p 0 0:0 0 8192 4 4 0 0 0 0 0 0 0 0 0 0 0 0 0 0 0 0 0 0 0 rd wr mr mw me ac  ";
    let result = PMap::from_str(input).unwrap();
    assert_eq!(result.mapping_kind, MappingKind::AnonymousPrivate(None));
    assert_eq!(result.size_in_kibibyte, 8192);
    let without_flags = "1000 rw-p 0 0:0 0 8192 4 4 0 0 0 0 0 0 0 0 0 0 0 0 0 0 0 0 0 0 0";
    let result = PMap::from_str(without_flags).unwrap();
    assert_eq!(result.mapping_kind, MappingKind::AnonymousPrivate(None));
    assert_eq!(result.virtual_memory_flags, BitFlags::empty());
}

#[test]
fn pmap_with_the_kinds_in_brackets() {
    let head = "1000 rw-p 0 0:0 0 8 4 4 0 0 0 0 0 0 0 0 0 0 0 0 0 0 0 0 0 0 0 rd ";
    assert_eq!(PMap::from_str(&format!("{}[heap]", head)).unwrap().mapping_kind, MappingKind::Heap);
    assert_eq!(PMap::from_str(&format!("{}[stack]", head)).unwrap().mapping_kind, MappingKind::Stack);
    assert_eq!(
        PMap::from_str(&format!("{}[anon:a name]", head)).unwrap().mapping_kind,
        MappingKind::AnonymousPrivate(Some("a name".into()))
    );
    assert_eq!(
        PMap::from_str(&format!("{}[nothing]", head)),
        Err(ParseError::InvalidMappingKind("[nothing]".to_string()))
    );
}

#[test]
fn pmap_flags_named_twice_are_out_again() {
    let input = "1000 rw-p 0 0:0 0 8 4 4 0 0 0 0 0 0 0 0 0 0 0 0 0 0 0 0 0 0 0 rd wr rd [heap]";
    let result = PMap::from_str(input).unwrap();
    assert_eq!(
        result.virtual_memory_flags,
        BitFlags::from_flag(VirtualMemoryFlags::Writeable)
    );
}

#[test]
fn pmap_numbers_have_their_bases() {
    let input = "ff r--p 10 a:1f 10 10 10 10 10 10 10 10 10 10 10 10 10 10 10 10 10 10 10 10 10 10 0";
    let result = PMap::from_str(input).unwrap();
    assert_eq!(result.address, 255);
    assert_eq!(result.offset, 16);
    assert_eq!(result.device_major, 10);
    assert_eq!(result.device_minor, 31);
    assert_eq!(result.inode, 10);
    assert_eq!(result.size_in_kibibyte, 10);
    assert_eq!(result.kernel_page_size_in_kibibyte, 10);
    assert_eq!(result.locked_in_kibibyte, 10);
}

#[test]
fn pmap_numbers_at_their_limits() {
    let input = "ffffffffffffffff r--p +FFFFFFFFFFFFFFFF ffff:FFFF 18446744073709551615 18446744073709551615 18446744073709551615 18446744073709551615 0 0 0 0 0 0 0 0 0 0 0 0 0 0 0 0 0 18446744073709551615 -1";
    let result = PMap::from_str(input).unwrap();
    assert_eq!(result.address, u64::MAX);
    assert_eq!(result.offset, u64::MAX);
    assert_eq!(result.device_major, u16::MAX);
    assert_eq!(result.device_minor, u16::MAX);
    assert_eq!(result.inode, u64::MAX);
    assert_eq!(result.size_in_kibibyte, u64::MAX);
    assert_eq!(result.kernel_page_size_in_kibibyte, u64::MAX);
    assert_eq!(result.mmu_page_size_in_kibibyte, u64::MAX);
    assert_eq!(result.locked_in_kibibyte, u64::MAX);
}

#[test]
fn pmap_of_a_mapping_in_huge_pages() {
    let input = "7f0000000000 rw-p 00000000 00:00 0 2048 2048 2048 1 2 3 4 5 6 7 8 9 1 2 3 4 5 6 7 8 9 0 rd wr mr mw me ht";
    let result = PMap::from_str(input).unwrap();
    assert_eq!(result.address, 0x7f0000000000);
    assert_eq!(result.size_in_kibibyte, 2048);
    assert_eq!(result.kernel_page_size_in_kibibyte, 2048);
    assert_eq!(result.mmu_page_size_in_kibibyte, 2048);
    assert_eq!(result.transparent_huge_page_eligible, false);
    assert_eq!(result.mapping_kind, MappingKind::AnonymousPrivate(None));
    assert!(result.virtual_memory_flags.contains(VirtualMemoryFlags::AreaUsesHugeTlbPages));
    let input = "7f0000000000 rw-p 00000000 00:00 0 1048576 1048576 1048576 0 0 0 0 0 0 0 0 0 0 0 0 0 0 0 0 0 0 0 rd wr ht";
    let result = PMap::from_str(input).unwrap();
    assert_eq!(result.kernel_page_size_in_kibibyte, 1048576);
    assert_eq!(result.mmu_page_size_in_kibibyte, 1048576);
}

#[test]
fn pmap_page_sizes_are_as_wide_as_the_other_sizes() {
    let head = "10 rwxp 0 0:0 0 0 ";
    let tail = " 0 0 0 0 0 0 0 0 0 0 0 0 0 0 0 0 0 0 0";
    for (text, value) in [("0", 0u64), ("255", 255), ("256", 256), ("65536", 65536), ("4294967296", 4294967296)] {
        let record = PMap::from_str(&format!("{}{} 4{}", head, text, tail)).unwrap();
        assert_eq!(record.kernel_page_size_in_kibibyte, value);
        assert_eq!(record.mmu_page_size_in_kibibyte, 4);
        let record = PMap::from_str(&format!("{}4 {}{}", head, text, tail)).unwrap();
        assert_eq!(record.kernel_page_size_in_kibibyte, 4);
        assert_eq!(record.mmu_page_size_in_kibibyte, value);
    }
}

#[test]
fn pmap_device_takes_its_first_two_parts() {
    let input = "1 r--p 0 1:2:zz 0 0 0 0 0 0 0 0 0 0 0 0 0 0 0 0 0 0 0 0 0 0 0";
    let result = PMap::from_str(input).unwrap();
    assert_eq!(result.device_major, 1);
    assert_eq!(result.device_minor, 2);
}

#[test]
fn pmap_eligible_only_for_minus_one() {
    let head = "1 r--p 0 0:0 0 0 0 0 0 0 0 0 0 0 0 0 0 0 0 0 0 0 0 0 0 0 ";
    assert!(PMap::from_str(&format!("{}-1", head)).unwrap().transparent_huge_page_eligible);
    for word in ["0", "1", "-", "-11", "--1", "x"] {
        assert!(!PMap::from_str(&format!("{}{}", head, word)).unwrap().transparent_huge_page_eligible);
    }
}

#[test]
fn pmap_missing_fields_fail_by_name() {
    let words = "7faf68872000 rw-p 02743000 00:01 4128 4 4 4 1 2 3 4 5 6 7 8 9 1 2 3 4 5 6 7 8 9 -1";
    let words: Vec<&str> = words.split(' ').collect();
    let fields = [
        Field::Address,
        Field::Permissions,
        Field::Offset,
        Field::Device,
        Field::Inode,
        Field::Size,
        Field::KernelPageSize,
        Field::MmuPageSize,
        Field::ResidentSetSize,
        Field::ProportionalShareSize,
        Field::ProportionalShareSizeDirty,
        Field::SharedClean,
        Field::SharedDirty,
        Field::PrivateClean,
        Field::PrivateDirty,
        Field::Referenced,
        Field::Anonymous,
        Field::LazyFree,
        Field::AnonymousHugePages,
        Field::SharedMemoryAssociatedWithHugePages,
        Field::FilePmeMapped,
        Field::SharedHugetlb,
        Field::PrivateHugetlb,
        Field::Swap,
        Field::SwapPss,
        Field::Locked,
        Field::TransparentHugePageEligible,
    ];
    assert_eq!(words.len(), fields.len());
    for (count, field) in fields.iter().enumerate() {
        let line = words[..count].join(" ");
        assert_eq!(PMap::from_str(&line), Err(ParseError::MissingField(*field)), "{}", line);
    }
    assert!(PMap::from_str(&words.join(" ")).is_ok());
}

#[test]
fn pmap_fields_that_are_no_numbers_fail_by_name() {
    let words = "7faf68872000 rw-p 02743000 00:01 4128 4 4 4 1 2 3 4 5 6 7 8 9 1 2 3 4 5 6 7 8 9 -1";
    let words: Vec<&str> = words.split(' ').collect();
    let fields = [
        (0, Field::Address),
        (2, Field::Offset),
        (4, Field::Inode),
        (5, Field::Size),
        (6, Field::KernelPageSize),
        (7, Field::MmuPageSize),
        (8, Field::ResidentSetSize),
        (9, Field::ProportionalShareSize),
        (10, Field::ProportionalShareSizeDirty),
        (11, Field::SharedClean),
        (12, Field::SharedDirty),
        (13, Field::PrivateClean),
        (14, Field::PrivateDirty),
        (15, Field::Referenced),
        (16, Field::Anonymous),
        (17, Field::LazyFree),
        (18, Field::AnonymousHugePages),
        (19, Field::SharedMemoryAssociatedWithHugePages),
        (20, Field::FilePmeMapped),
        (21, Field::SharedHugetlb),
        (22, Field::PrivateHugetlb),
        (23, Field::Swap),
        (24, Field::SwapPss),
        (25, Field::Locked),
    ];
    for (column, field) in fields {
        let mut changed = words.clone();
        changed[column] = "0x";
        let line = changed.join(" ");
        assert_eq!(
            PMap::from_str(&line),
            Err(ParseError::InvalidField(field, "0x".to_string())),
            "{}",
            line
        );
    }
}

#[test]
fn pmap_the_first_failure_counts() {
    let input = "zz rwxz 0 0 0";
    assert_eq!(
        PMap::from_str(input),
        Err(ParseError::InvalidField(Field::Address, "zz".to_string()))
    );
    let input = "10 rwxz zz 0 0";
    assert_eq!(
        PMap::from_str(input),
        Err(ParseError::InvalidPermissions("rwxz".to_string()))
    );
    let input = "10 rwxp 0 0:0 0 0 0 0 0 0 0 0 0 0 0 0 0 0 0 0 0 0 0 0 0 x 0 [oops]";
    assert_eq!(
        PMap::from_str(input),
        Err(ParseError::InvalidField(Field::Locked, "x".to_string()))
    );
}

#[test]
fn pmap_numbers_out_of_range_fail() {
    let head = "10 rwxp 0 0:0 0 0 ";
    let tail = " 0 0 0 0 0 0 0 0 0 0 0 0 0 0 0 0 0 0 0";
    assert_eq!(
        PMap::from_str(&format!("{}18446744073709551616 4{}", head, tail)),
        Err(ParseError::InvalidField(Field::KernelPageSize, "18446744073709551616".to_string()))
    );
    assert_eq!(
        PMap::from_str(&format!("{}4 18446744073709551616{}", head, tail)),
        Err(ParseError::InvalidField(Field::MmuPageSize, "18446744073709551616".to_string()))
    );
    assert_eq!(
        PMap::from_str(&format!("{}18446744073709551615 4{}", head, tail)).unwrap().kernel_page_size_in_kibibyte,
        u64::MAX
    );
    assert_eq!(
        PMap::from_str("10000000000000000 rwxp"),
        Err(ParseError::InvalidField(Field::Address, "10000000000000000".to_string()))
    );
    assert_eq!(
        PMap::from_str("1 rwxp 0 0:0 18446744073709551616"),
        Err(ParseError::InvalidField(Field::Inode, "18446744073709551616".to_string()))
    );
    assert_eq!(
        PMap::from_str("1 rwxp 0 0:0 -1"),
        Err(ParseError::InvalidField(Field::Inode, "-1".to_string()))
    );
    assert_eq!(
        PMap::from_str("1 rwxp 0 0:0 1f"),
        Err(ParseError::InvalidField(Field::Inode, "1f".to_string()))
    );
    assert_eq!(
        PMap::from_str("+ rwxp"),
        Err(ParseError::InvalidField(Field::Address, "+".to_string()))
    );
}

#[test]
fn pmap_device_failures() {
    assert_eq!(
        PMap::from_str("1 rwxp 0 10000:0"),
        Err(ParseError::InvalidField(Field::DeviceMajor, "10000".to_string()))
    );
    assert_eq!(
        PMap::from_str("1 rwxp 0 :0"),
        Err(ParseError::InvalidField(Field::DeviceMajor, "".to_string()))
    );
    assert_eq!(
        PMap::from_str("1 rwxp 0 0801"),
        Err(ParseError::MissingField(Field::DeviceMinor))
    );
    assert_eq!(
        PMap::from_str("1 rwxp 0 08:"),
        Err(ParseError::InvalidField(Field::DeviceMinor, "".to_string()))
    );
    assert_eq!(
        PMap::from_str("1 rwxp 0 08:0g"),
        Err(ParseError::InvalidField(Field::DeviceMinor, "0g".to_string()))
    );
    assert_eq!(
        PMap::from_str("1 rwxp 0 08:1:2").unwrap_err(),
        ParseError::MissingField(Field::Inode)
    );
}

#[test]
fn pmap_of_a_blank_line_misses_its_address() {
    assert_eq!(PMap::from_str(""), Err(ParseError::MissingField(Field::Address)));
    assert_eq!(PMap::from_str("  \t "), Err(ParseError::MissingField(Field::Address)));
}

#[test]
fn pmap_failures_in_words() {
    assert_eq!(ParseError::MissingField(Field::Address).message(), "Can't parse address");
    assert_eq!(
        ParseError::InvalidField(Field::DeviceMajor, "x".to_string()).message(),
        "Can't parse device major"
    );
    assert_eq!(
        ParseError::MissingField(Field::SharedMemoryAssociatedWithHugePages).message(),
        "Can't parse shared memory associated with huge pages"
    );
    assert_eq!(
        ParseError::MissingField(Field::FilePmeMapped).message(),
        "Can't parse file pme mapped"
    );
    assert_eq!(
        ParseError::MissingField(Field::TransparentHugePageEligible).message(),
        "Can't parse transparent huge page eligible"
    );
    assert_eq!(
        ParseError::InvalidMappingKind("[x]".to_string()).message(),
        "Invalid mapping kind"
    );
    assert_eq!(Field::ProportionalShareSizeDirty.name(), "proportional share size dirty");
}

#[test]
fn pmap_default_is_empty() {
    let record = PMap::default();
    assert_eq!(record.address, 0);
    assert_eq!(record.permissions, BitFlags::empty());
    assert_eq!(record.device_major, 0);
    assert_eq!(record.size_in_kibibyte, 0);
    assert_eq!(record.locked_in_kibibyte, 0);
    assert_eq!(record.transparent_huge_page_eligible, false);
    assert_eq!(record.virtual_memory_flags, BitFlags::empty());
    assert_eq!(record.mapping_kind, MappingKind::AnonymousPrivate(None));
    assert_eq!(record.clone(), record);
}

#[test]
fn pmap_clone_is_equal() {
    let input = "7faf68872000 rw-p 02743000 00:01 4128 4 4 4 1 2 3 4 5 6 7 8 9 1 2 3 4 5 6 7 8 9 -1 rd ex sh mr mw me ms sd memfd:doublemapper (deleted)";
    let record = PMap::from_str(input).unwrap();
    assert_eq!(record.clone(), record);
    let records = PMapVec(vec![record, PMap::default()]);
    assert_eq!(records.clone(), records);
}

#[test]
fn dump_without_its_first_line() {
    let text = "Address Perm Offset Device Inode Size\n\
        1000 r-xp 0 8:1 11 4 4 4 0 0 0 0 0 0 0 0 0 0 0 0 0 0 0 0 0 0 0 rd ex /bin/cat\n\
        \n\
        \t2000 rw-p 0 0:0 0 132 4 4 0 0 0 0 0 0 0 0 0 0 0 0 0 0 0 0 0 0 0 rd wr [heap]  \r\n\
        3000 rw-p 0 0:0 0 8 4 4 0 0 0 0 0 0 0 0 0 0 0 0 0 0 0 0 0 0 0 rd wr\n";
    let records = PMap::parse_pmap_output(text).unwrap();
    assert_eq!(records.0.len(), 3);
    assert_eq!(records.0[0].address, 0x1000);
    assert_eq!(records.0[0].mapping_kind, MappingKind::File(FileInfo::new("/bin/cat")));
    assert_eq!(records.0[1].address, 0x2000);
    assert_eq!(records.0[1].size_in_kibibyte, 132);
    assert_eq!(records.0[1].mapping_kind, MappingKind::Heap);
    assert_eq!(records.0[2].address, 0x3000);
    assert_eq!(records.0[2].mapping_kind, MappingKind::AnonymousPrivate(None));
}

#[test]
fn dump_passes_over_its_first_line_whatever_it_holds() {
    let line = "1000 r-xp 0 8:1 11 4 4 4 0 0 0 0 0 0 0 0 0 0 0 0 0 0 0 0 0 0 0 rd ex /bin/cat";
    assert_eq!(PMap::parse_pmap_output(line).unwrap().0.len(), 0);
    assert_eq!(PMap::parse_pmap_output(&format!("{}\n", line)).unwrap().0.len(), 0);
    assert_eq!(PMap::parse_pmap_output(&format!("{}\n{}", line, line)).unwrap().0.len(), 1);
    assert_eq!(PMap::parse_pmap_output(&format!("\n{}", line)).unwrap().0.len(), 1);
    assert_eq!(PMap::parse_pmap_output("").unwrap().0.len(), 0);
    assert_eq!(PMap::parse_pmap_output("\n\n\n").unwrap().0.len(), 0);
    assert_eq!(PMap::parse_pmap_output("not a record").unwrap().0.len(), 0);
}

#[test]
fn dump_fails_with_its_first_bad_line() {
    let good = "1000 r-xp 0 8:1 11 4 4 4 0 0 0 0 0 0 0 0 0 0 0 0 0 0 0 0 0 0 0 rd ex /bin/cat";
    let text = format!("header\n{}\nxyz r-xp\n{}\n1000 bad\n", good, good);
    assert_eq!(
        PMap::parse_pmap_output(&text),
        Err(ParseError::InvalidField(Field::Address, "xyz".to_string()))
    );
    let text = format!("header\n{}\n{}\n1000 bad\n", good, good);
    assert_eq!(
        PMap::parse_pmap_output(&text),
        Err(ParseError::InvalidPermissions("bad".to_string()))
    );
}

#[test]
fn dump_lines_agree_with_the_lines_of_the_text() {
    let good = "1000 r-xp 0 8:1 11 4 4 4 0 0 0 0 0 0 0 0 0 0 0 0 0 0 0 0 0 0 0 rd ex /bin/cat";
    let text = format!("header\r\n{}\r\n\r\n  {}  \r\n{}", good, good, good);
    let records = PMap::parse_pmap_output(&text).unwrap();
    let mut expected = Vec::new();
    for line in text.lines().skip(1) {
        if !line.trim().is_empty() {
            expected.push(PMap::from_str(line).unwrap());
        }
    }
    assert_eq!(records, PMapVec(expected));
    assert_eq!(records.0.len(), 3);
}

#[test]
fn pages_to_display_are_the_large_ones_largest_first() {
    let mut pages = Vec::new();
    for (address, size) in [(1u64, 10240u64), (2, 10241), (3, 5), (4, 20000), (5, 10241), (6, 20000), (7, 0), (8, 30000)] {
        let mut page = PMap::default();
        page.address = address;
        page.size_in_kibibyte = size;
        pages.push(page);
    }
    let shown = PMapVec(pages).pages_to_display();
    let addresses: Vec<u64> = shown.0.iter().map(|page| page.address).collect();
    assert_eq!(addresses, vec![8, 4, 6, 2, 5]);
    assert_eq!(PMapVec(Vec::new()).pages_to_display().0.len(), 0);
}
