use murmur::types::UserStatus;
use murmur::ui::theme::{avatar_rgb, avatar_text_rgb, initials, status_rgb};

#[test]
fn status_colours() {
    assert_eq!(status_rgb(UserStatus::Online), (34, 197, 94));
    assert_eq!(status_rgb(UserStatus::Away), (245, 158, 11));
    assert_eq!(status_rgb(UserStatus::DoNotDisturb), (239, 68, 68));
    assert_eq!(status_rgb(UserStatus::Offline), (51, 51, 51));
}

#[test]
fn avatar_tone_by_hash() {
    // hash("") = 0 -> tone 0
    assert_eq!(avatar_rgb(""), (24, 24, 20));
    // hash("a") = 97, 97 % 6 = 1
    assert_eq!(avatar_rgb("a"), (20, 24, 20));
    // hash("ab") = 97 * 31 + 98 = 3105, 3105 % 6 = 3
    assert_eq!(avatar_rgb("ab"), (20, 20, 24));
    assert_eq!(avatar_rgb("Alice"), avatar_rgb("Alice"));
}

#[test]
fn initials_of_names() {
    assert_eq!(initials("Alice"), "al");
    assert_eq!(initials("Bo"), "bo");
    assert_eq!(initials("Z"), "z");
    assert_eq!(initials(""), "?");
    assert_eq!(initials("ÉCOLE"), "éc");
    assert_eq!(initials("AB cd"), "ab");
    assert_eq!(initials("9x").chars().count(), 2);
    assert_eq!(initials("Q").chars().count(), 1);
}

#[test]
fn avatar_text_tone_follows_background() {
    assert_eq!(avatar_text_rgb(""), (106, 106, 74));
    assert_eq!(avatar_text_rgb("a"), (74, 106, 74));
    assert_eq!(avatar_text_rgb("ab"), (74, 74, 106));
}
