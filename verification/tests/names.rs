use kando_cosmic_helper::names::NameMap;

fn pairs(map: &NameMap) -> Vec<(&str, &str)> {
    map.entries.iter().map(|(n, i)| (n.as_str(), i.as_str())).collect()
}

#[test]
fn names_are_read_line_by_line() {
    let map = NameMap::load("Coding\tabc\nno tab here\nChat\t  x y \t\r\n\n\tempty name\n");
    assert_eq!(pairs(&map), vec![("Coding", "abc"), ("Chat", "x y"), ("", "empty name")]);
}

#[test]
fn an_empty_file_has_no_names() {
    assert!(NameMap::load("").entries.is_empty());
    assert!(NameMap::load("\n\n").entries.is_empty());
}

#[test]
fn written_names_are_read_back() {
    let map = NameMap::load("Coding\tabc\nChat\tdef\n");
    assert_eq!(map.save(), "Coding\tabc\nChat\tdef\n");
    assert_eq!(pairs(&NameMap::load(&map.save())), pairs(&map));
}

#[test]
fn names_are_found_whatever_their_case() {
    let map = NameMap::load("Coding\tabc\ncoding\txyz\n");
    assert_eq!(map.id_for("CODING").as_deref(), Some("abc"));
    assert_eq!(map.id_for("Code"), None);
}

#[test]
fn ids_are_found_exactly() {
    let map = NameMap::load("Coding\tabc\nNone\t\n");
    assert_eq!(map.name_for("abc").as_deref(), Some("Coding"));
    assert_eq!(map.name_for("ABC"), None);
    assert_eq!(map.name_for(""), None);
}

#[test]
fn setting_a_name_takes_it_and_the_id_from_others() {
    let mut map = NameMap::load("Coding\t1\nChat\t2\nMedia\t3\n");
    map.set("CHAT", "3");
    assert_eq!(pairs(&map), vec![("Coding", "1"), ("CHAT", "3")]);
    assert_eq!(map.id_for("chat").as_deref(), Some("3"));
    assert_eq!(map.name_for("3").as_deref(), Some("CHAT"));
    assert_eq!(map.id_for("Coding").as_deref(), Some("1"));
}

#[test]
fn a_removed_name_is_gone() {
    let mut map = NameMap::load("Coding\t1\nchat\t2\nCHAT\t3\n");
    map.remove("Chat");
    assert_eq!(pairs(&map), vec![("Coding", "1")]);
    assert_eq!(map.id_for("chat"), None);
    assert_eq!(NameMap::load(&map.save()).id_for("chat"), None);
}

#[test]
fn a_recorded_name_survives_writing_and_reading() {
    let mut map = NameMap::load("Files\t9\nChat\t2\n");
    map.set("Chat", "7");
    let again = NameMap::load(&map.save());
    assert_eq!(again.id_for("chat").as_deref(), Some("7"));
}

#[test]
fn only_ascii_letters_lose_their_case() {
    let map = NameMap::load("Ärger\t1\n");
    assert_eq!(map.id_for("ÄRGER").as_deref(), Some("1"));
    assert_eq!(map.id_for("ärger"), None);
}
