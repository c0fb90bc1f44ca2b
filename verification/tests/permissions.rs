use pmap_analyzer::BitFlags;
use pmap_analyzer::MyDisplay;
use pmap_analyzer::MyFromStr;
use pmap_analyzer::ParseError;
use pmap_analyzer::Permissions;

#[test]
fn permissions_with_read() {
    let input = "r---";
    let result = BitFlags::<Permissions>::from_str(input).unwrap();
    assert_eq!(result, BitFlags::from_flag(Permissions::Read));
}

#[test]
fn permissions_with_write() {
    let input = "-w--";
    let result = BitFlags::<Permissions>::from_str(input).unwrap();
    assert_eq!(result, BitFlags::from_flag(Permissions::Write));
}

#[test]
fn permissions_with_execute() {
    let input = "--x-";
    let result = BitFlags::<Permissions>::from_str(input).unwrap();
    assert_eq!(result, BitFlags::from_flag(Permissions::Execute));
}

#[test]
fn permissions_with_private() {
    let input = "---p";
    let result = BitFlags::<Permissions>::from_str(input).unwrap();
    assert_eq!(result, BitFlags::from_flag(Permissions::Private));
}

#[test]
fn permissions_with_shared() {
    let input = "---s";
    let result = BitFlags::<Permissions>::from_str(input).unwrap();
    assert_eq!(result, BitFlags::from_flag(Permissions::Shared));
}

#[test]
fn permissions_combinatorics_test() {
    let input = "r-xs";
    let result = BitFlags::<Permissions>::from_str(input).unwrap();
    let mut expected = BitFlags::<Permissions>::empty();
    expected.insert(Permissions::Read);
    expected.insert(Permissions::Execute);
    expected.insert(Permissions::Shared);
    assert_eq!(result, expected);
}

#[test]
fn permissions_without_any() {
    let result = BitFlags::<Permissions>::from_str("----").unwrap();
    assert_eq!(result, BitFlags::empty());
}

#[test]
fn permissions_round_trip_for_every_string() {
    let mut count = 0;
    for read in ['r', '-'] {
        for write in ['w', '-'] {
            for execute in ['x', '-'] {
                for last in ['p', 's', '-'] {
                    let text: String = [read, write, execute, last].iter().collect();
                    let set = BitFlags::<Permissions>::from_str(&text).unwrap();
                    assert_eq!(set.contains(Permissions::Read), read == 'r');
                    assert_eq!(set.contains(Permissions::Write), write == 'w');
                    assert_eq!(set.contains(Permissions::Execute), execute == 'x');
                    assert_eq!(set.contains(Permissions::Private), last == 'p');
                    assert_eq!(set.contains(Permissions::Shared), last == 's');
                    assert_eq!(set.encode(), text);
                    assert_eq!(BitFlags::<Permissions>::from_str(&set.encode()).unwrap(), set);
                    count += 1;
                }
            }
        }
    }
    assert_eq!(count, 24);
}

#[test]
fn permissions_encode_shows_private_before_shared() {
    let mut set = BitFlags::<Permissions>::empty();
    set.insert(Permissions::Shared);
    assert_eq!(set.encode(), "---s");
    set.insert(Permissions::Private);
    assert_eq!(set.encode(), "---p");
}

#[test]
fn permissions_of_another_length_fail() {
    for input in ["", "r", "rw-", "rw-p-", "rwxp ", " rwxp", "r w x p"] {
        assert_eq!(
            BitFlags::<Permissions>::from_str(input),
            Err(ParseError::InvalidPermissions(input.to_string()))
        );
    }
}

#[test]
fn permissions_with_a_character_out_of_place_fail() {
    for input in ["wr-p", "rr-p", "rwxx", "rwxr", "xwrp", "RWXP", "rw-P", "-rw-", "rwx?", "r\u{e9}-p"] {
        assert_eq!(
            BitFlags::<Permissions>::from_str(input),
            Err(ParseError::InvalidPermissions(input.to_string()))
        );
    }
}

#[test]
fn permissions_failure_says_what_was_read() {
    let error = BitFlags::<Permissions>::from_str("rwxz").unwrap_err();
    assert_eq!(error.message(), "Can't parse permissions: rwxz");
}

#[test]
fn permissions_display() {
    assert_eq!(BitFlags::<Permissions>::from_str("rw-p").unwrap().my_display(), "Read - Write - Private");
    assert_eq!(BitFlags::<Permissions>::from_str("r-xs").unwrap().my_display(), "Read - Execute - Share");
    assert_eq!(BitFlags::<Permissions>::from_str("rwx-").unwrap().my_display(), "Read - Write - Execute - ");
    assert_eq!(BitFlags::<Permissions>::from_str("----").unwrap().my_display(), "");
    assert_eq!(BitFlags::<Permissions>::from_str("---p").unwrap().my_display(), "Private");
}
