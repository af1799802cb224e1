use proxy_pipeline::permissions::{parse_permissions, Permission, PermissionSetting};

fn named(p: Permission) -> PermissionSetting {
    PermissionSetting::Named(p)
}

#[test]
fn number_is_taken_as_bits() {
    assert_eq!(parse_permissions("8"), PermissionSetting::Bits(8));
    assert_eq!(parse_permissions("0"), PermissionSetting::Bits(0));
    assert_eq!(parse_permissions("007"), PermissionSetting::Bits(7));
    assert_eq!(parse_permissions("+32"), PermissionSetting::Bits(32));
    assert_eq!(parse_permissions("18446744073709551615"), PermissionSetting::Bits(u64::MAX));
}

#[test]
fn space_around_the_setting_does_not_count() {
    assert_eq!(parse_permissions("  8\n"), PermissionSetting::Bits(8));
    assert_eq!(parse_permissions("\t administrator \r\n"), named(Permission::Administrator));
    assert_eq!(parse_permissions("\u{3000}ban_members\u{a0}"), named(Permission::BanMembers));
}

#[test]
fn names_are_read_in_any_case() {
    assert_eq!(parse_permissions("ADMINISTRATOR"), named(Permission::Administrator));
    assert_eq!(parse_permissions("Administrator"), named(Permission::Administrator));
    assert_eq!(parse_permissions("manage_guild"), named(Permission::ManageGuild));
    assert_eq!(parse_permissions("MANAGE_SERVER"), named(Permission::ManageGuild));
    assert_eq!(parse_permissions("manage_roles"), named(Permission::ManageRoles));
    assert_eq!(parse_permissions("Manage_Channels"), named(Permission::ManageChannels));
    assert_eq!(parse_permissions("kick_members"), named(Permission::KickMembers));
    assert_eq!(parse_permissions("BAN_MEMBERS"), named(Permission::BanMembers));
    assert_eq!(parse_permissions("moderate_members"), named(Permission::ModerateMembers));
    assert_eq!(parse_permissions("timeout_members"), named(Permission::ModerateMembers));
}

#[test]
fn unknown_name_stands_for_guild_management() {
    assert_eq!(parse_permissions(""), named(Permission::ManageGuild));
    assert_eq!(parse_permissions("   "), named(Permission::ManageGuild));
    assert_eq!(parse_permissions("owner"), named(Permission::ManageGuild));
    assert_eq!(parse_permissions("ADMINISTRATOR!"), named(Permission::ManageGuild));
    assert_eq!(parse_permissions("ADMIN ISTRATOR"), named(Permission::ManageGuild));
}

#[test]
fn what_is_no_number_is_read_as_a_name() {
    assert_eq!(parse_permissions("18446744073709551616"), named(Permission::ManageGuild));
    assert_eq!(parse_permissions("99999999999999999999999999"), named(Permission::ManageGuild));
    assert_eq!(parse_permissions("-8"), named(Permission::ManageGuild));
    assert_eq!(parse_permissions("+"), named(Permission::ManageGuild));
    assert_eq!(parse_permissions("++8"), named(Permission::ManageGuild));
    assert_eq!(parse_permissions("8 8"), named(Permission::ManageGuild));
    assert_eq!(parse_permissions("0x8"), named(Permission::ManageGuild));
    assert_eq!(parse_permissions("\u{664}"), named(Permission::ManageGuild));
}

#[test]
fn only_ascii_letters_are_capitalised() {
    assert_eq!(parse_permissions("\u{ff41}dministrator"), named(Permission::ManageGuild));
    assert_eq!(parse_permissions("administrat\u{f6}r"), named(Permission::ManageGuild));
}

fn by_the_standard_library(s: &str) -> PermissionSetting {
    let s = s.trim();
    if let Ok(bits) = s.parse::<u64>() {
        return PermissionSetting::Bits(bits);
    }
    named(match s.to_ascii_uppercase().as_str() {
        "ADMINISTRATOR" => Permission::Administrator,
        "MANAGE_GUILD" | "MANAGE_SERVER" => Permission::ManageGuild,
        "MANAGE_ROLES" => Permission::ManageRoles,
        "MANAGE_CHANNELS" => Permission::ManageChannels,
        "KICK_MEMBERS" => Permission::KickMembers,
        "BAN_MEMBERS" => Permission::BanMembers,
        "MODERATE_MEMBERS" | "TIMEOUT_MEMBERS" => Permission::ModerateMembers,
        _ => Permission::ManageGuild,
    })
}

#[test]
fn agrees_with_the_standard_library_on_samples() {
    let samples = [
        "", " ", "8", " 8 ", "+8", "-8", "+", "+ 8", "08", "18446744073709551615",
        "18446744073709551616", "1844674407370955161500", "administrator", " Kick_Members\t",
        "\u{2003}ban_members\u{2028}", "\u{1680}12\u{85}", "\u{200b}12", "12\u{feff}", "1_000",
        "moderate_members", "TIMEOUT_MEMBERS ", "manage_roles\u{0}", "\u{b}\u{c}7\u{1c}",
    ];
    for s in samples {
        assert_eq!(parse_permissions(s), by_the_standard_library(s), "on {:?}", s);
    }
}

#[test]
fn white_space_is_what_the_standard_library_trims() {
    let mut c = '\u{0}';
    loop {
        let text = format!("{}7{}", c, c);
        let trimmed = parse_permissions(&text) == PermissionSetting::Bits(7);
        assert_eq!(trimmed, c.is_whitespace(), "on {:?}", c);
        if c == char::MAX {
            break;
        }
        c = char::from_u32(if c as u32 == 0xd7ff { 0xe000 } else { c as u32 + 1 }).unwrap();
    }
}
