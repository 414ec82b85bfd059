use savepath::broad::{
    bare_drive, bare_placeholder, blacklisted, hits, loose_under, loose_under_root,
    stray_colon, too_broad, BLACKLIST,
};
use savepath::placeholder::{ALL, AVOID_WILDCARDS};
use savepath::usable;
use savepath::text::has_char;
use savepath::usable::{actionable, unprintable};

fn letters(text: &str) -> Vec<char> {
    text.chars().collect()
}

#[test]
fn rejects_empty() {
    assert!(!usable(""));
}

#[test]
fn rejects_bare_placeholder() {
    assert!(!usable("<home>"));
    for name in ALL {
        assert!(!usable(name));
    }
}

#[test]
fn accepts_placeholder_with_a_name_behind() {
    assert!(usable("<home>/MyGame"));
    assert!(usable("<base>/saves"));
    assert!(usable("<game>/saves"));
}

#[test]
fn rejects_root_and_bare_drive() {
    assert!(!usable("/"));
    assert!(!usable("C:"));
    assert!(!usable("z:"));
}

#[test]
fn accepts_path_on_a_drive() {
    assert!(usable("C:/Games/MyGame"));
    assert!(usable("1:"));
}

#[test]
fn rejects_blacklist_prefix_case_insensitively() {
    assert!(!usable("<HOME>/documents"));
    assert!(!usable("<home>/Documents"));
    assert!(!usable("<home>/DOCUMENTS"));
    assert!(!usable("<Home>/dOcUmEnTs"));
}

#[test]
fn rejects_every_blacklist_entry() {
    for (root, tail) in BLACKLIST {
        let entry = format!("{root}{tail}");
        assert!(!usable(&entry));
        assert!(!usable(&entry.to_uppercase()));
        assert!(!usable(&format!("{entry}/*/saves")));
        assert!(!usable(&format!("{entry}/<storeUserId>")));
        assert!(!usable(&format!("{entry}/<STOREUSERID>/x")));
        assert!(!usable(&format!("{entry}/SavesDir")));
    }
}

#[test]
fn accepts_specific_path() {
    assert!(usable("<home>/Library/Application Support/MyGame/save.dat"));
    assert!(usable("<home>/Documents/My Games/MyGame"));
    assert!(usable("<winDocuments>/MyGame"));
}

#[test]
fn rejects_unresolved_template() {
    assert!(!usable("{{installDir}}/saves"));
    assert!(!usable("<base>/{{p|localappdata}}"));
}

#[test]
fn accepts_single_brace() {
    assert!(usable("<base>/{x}/saves"));
}

#[test]
fn rejects_relative_paths() {
    assert!(!usable("./saves"));
    assert!(!usable("../saves"));
}

#[test]
fn accepts_name_with_leading_dot() {
    assert!(usable(".config/game"));
    assert!(usable("..config/game"));
}

#[test]
fn rejects_control_characters() {
    assert!(!usable("<home>/saves\u{0007}"));
    assert!(!usable("<home>/sa\u{0000}ves"));
    assert!(!usable("<home>/saves\u{009f}"));
}

#[test]
fn rejects_format_characters() {
    assert!(!usable("<home>/saves\u{200b}"));
    assert!(!usable("<home>/\u{feff}saves"));
    assert!(!usable("<home>/saves\u{00ad}"));
}

#[test]
fn rejects_wildcard_under_a_root() {
    assert!(!usable("<home>/*"));
    assert!(!usable("<home>/*/saves"));
    assert!(!usable("<winAppData>/*.sav"));
    assert!(!usable("<xdgData>/<storeUserId>"));
    assert!(!usable("<root>/<storeUserId>/x"));
}

#[test]
fn accepts_wildcard_under_roots_that_allow_it() {
    assert!(usable("<base>/*"));
    assert!(usable("<game>/*/saves"));
}

#[test]
fn rejects_stray_colon() {
    assert!(!usable("<home>/a:b"));
    assert!(!usable("C::"));
    assert!(!usable("ab:"));
}

#[test]
fn counts_the_colon_position_in_bytes() {
    assert!(!usable("\u{e9}:"));
    assert!(usable("a\u{e9}:x"));
    assert!(usable("\u{20ac}:x"));
}

#[test]
fn rejects_leading_wildcard() {
    assert!(!usable("*"));
    assert!(!usable("*/saves"));
    assert!(!usable("*.sav"));
}

#[test]
fn too_broad_agrees_with_its_parts() {
    assert!(too_broad("<home>"));
    assert!(too_broad("<home>/*"));
    assert!(too_broad("<HOME>/saved games"));
    assert!(too_broad("D:"));
    assert!(too_broad("<home>/x:y"));
    assert!(too_broad("/"));
    assert!(too_broad("*x"));
    assert!(!too_broad("<home>/MyGame"));
    assert!(!too_broad(""));
    assert!(!too_broad("./x"));
}

#[test]
fn bare_placeholder_wants_the_exact_text() {
    for name in ALL {
        assert!(bare_placeholder(&letters(name)));
    }
    assert!(!bare_placeholder(&letters("<HOME>")));
    assert!(!bare_placeholder(&letters("<home>/")));
    assert!(!bare_placeholder(&letters("home")));
    assert!(!bare_placeholder(&letters("")));
}

#[test]
fn loose_under_sees_wildcard_and_user_id() {
    assert!(loose_under(&letters("<x>/*"), &letters("<x>")));
    assert!(loose_under(&letters("<x>/*y/z"), &letters("<x>")));
    assert!(loose_under(&letters("<x>/<storeUserId>/z"), &letters("<x>")));
    assert!(!loose_under(&letters("<x>/y/*"), &letters("<x>")));
    assert!(!loose_under(&letters("<x>"), &letters("<x>")));
    assert!(!loose_under(&letters("<x>*"), &letters("<x>")));
    assert!(!loose_under(&letters("<x>/<storeuserid>"), &letters("<x>")));
}

#[test]
fn loose_under_root_covers_the_wildcard_avoiding_roots() {
    for root in AVOID_WILDCARDS {
        assert!(loose_under_root(&letters(&format!("{root}/*"))));
        assert!(loose_under_root(&letters(&format!("{root}/<storeUserId>"))));
        assert!(!loose_under_root(&letters(&format!("{root}/x"))));
    }
    assert!(!loose_under_root(&letters("<base>/*")));
    assert!(!loose_under_root(&letters("<game>/*")));
    assert!(!loose_under_root(&letters("<storeUserId>/*")));
    assert!(!loose_under_root(&letters("<osUserName>/*")));
    assert!(!loose_under_root(&letters("<winLocalAppDataLow>/*")));
}

#[test]
fn hits_knows_four_ways() {
    let user = letters("<id>");
    assert!(hits(&letters("a/b"), &letters("a/b"), &user));
    assert!(hits(&letters("a/b/*"), &letters("a/b"), &user));
    assert!(hits(&letters("a/b/*c"), &letters("a/b"), &user));
    assert!(hits(&letters("a/b/<id>/c"), &letters("a/b"), &user));
    assert!(hits(&letters("a/b/savesdir"), &letters("a/b"), &user));
    assert!(hits(&letters("a/b/savesdirs"), &letters("a/b"), &user));
    assert!(!hits(&letters("a/b/c"), &letters("a/b"), &user));
    assert!(!hits(&letters("a/b/"), &letters("a/b"), &user));
    assert!(!hits(&letters("a/bc"), &letters("a/b"), &user));
    assert!(!hits(&letters("a"), &letters("a/b"), &user));
    assert!(!hits(&letters("a/b/saves"), &letters("a/b"), &user));
}

#[test]
fn blacklisted_ignores_case() {
    assert!(blacklisted("<home>/appdata/locallow"));
    assert!(blacklisted("c:/program files (X86)"));
    assert!(blacklisted("<WINDIR>/WIN.INI"));
    assert!(!blacklisted("<home>/AppData/Local/MyGame"));
    assert!(!blacklisted("<home>"));
}

#[test]
fn bare_drive_wants_a_letter_and_a_colon() {
    assert!(bare_drive("C:"));
    assert!(bare_drive("c:"));
    assert!(!bare_drive("C:/"));
    assert!(!bare_drive("C"));
    assert!(!bare_drive(":"));
    assert!(!bare_drive("CC:"));
    assert!(!bare_drive("7:"));
    assert!(!bare_drive("C:\n"));
}

#[test]
fn stray_colon_looks_from_the_third_byte() {
    assert!(!stray_colon("C:"));
    assert!(!stray_colon("C:/x"));
    assert!(stray_colon("C:/x:y"));
    assert!(stray_colon("ab:"));
    assert!(stray_colon("::::"));
    assert!(!stray_colon(""));
    assert!(!stray_colon(":"));
    assert!(stray_colon("\u{e9}:"));
    assert!(!stray_colon("a\u{e9}:"));
    assert!(!stray_colon("\u{20ac}:"));
    assert!(!stray_colon("\u{1f600}:"));
}

#[test]
fn has_char_finds_a_character() {
    assert!(has_char("a:b", ':'));
    assert!(has_char(":", ':'));
    assert!(!has_char("ab", ':'));
    assert!(!has_char("", ':'));
}

#[test]
fn actionable_wants_a_fixed_resolved_place() {
    assert!(actionable(&letters("a")));
    assert!(actionable(&letters("/")));
    assert!(actionable(&letters("<home>")));
    assert!(actionable(&letters(".a/{x}")));
    assert!(!actionable(&letters("")));
    assert!(!actionable(&letters("a/{{b")));
    assert!(!actionable(&letters("{{")));
    assert!(!actionable(&letters("./a")));
    assert!(!actionable(&letters("../a")));
}

#[test]
fn unprintable_finds_control_and_format_characters() {
    assert!(unprintable("a\u{7}"));
    assert!(unprintable("\u{200e}a"));
    assert!(unprintable("a\tb"));
    assert!(!unprintable("a b"));
    assert!(!unprintable(""));
    assert!(!unprintable("\u{e9}\u{20ac}"));
}
