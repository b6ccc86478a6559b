use libcheese::common::{
    is_token_blacklisted, parse_other_token_name, speaks_of_cheese, truncate, CHEESE_MINT,
    EMPIRE_MINT, HARA_MINT, OSHO_MINT, USDC_DECIMALS, USDC_MINT,
};
use libcheese::raydium::{find_symbol, RaydiumMintIdsResponse, RaydiumMintItem};
use libcheese::text::{contains_infix, find_char, flag_white_space, lowercase, trim, trim_bounds};
use libcheese::updater::{cheese_sides, other_symbol, DisplayPool};

#[test]
fn other_token_is_the_second_when_the_first_is_cheese() {
    assert_eq!(parse_other_token_name("CHEESE-SOL"), "SOL");
    assert_eq!(parse_other_token_name("cheese-USDC"), "USDC");
    assert_eq!(parse_other_token_name("\u{1F9C0}-BONK"), "BONK");
}

#[test]
fn other_token_is_the_first_when_only_the_second_is_cheese() {
    assert_eq!(parse_other_token_name("SOL-CHEESE"), "SOL");
    assert_eq!(parse_other_token_name("SOL-ChEeSe"), "SOL");
    assert_eq!(parse_other_token_name("BONK-\u{1F9C0}"), "BONK");
}

#[test]
fn other_token_is_the_second_when_neither_is_cheese() {
    assert_eq!(parse_other_token_name("SOL-USDC"), "USDC");
}

#[test]
fn other_token_is_the_second_when_both_are_cheese() {
    assert_eq!(parse_other_token_name("Cheese-\u{1F9C0}"), "\u{1F9C0}");
}

#[test]
fn other_token_comes_without_surrounding_space() {
    assert_eq!(parse_other_token_name("  CHEESE \t-  SOL  "), "SOL");
    assert_eq!(parse_other_token_name(" my token - \u{1F9C0} cheese "), "my token");
    assert_eq!(parse_other_token_name("\u{2003}SOL\u{00A0}-\u{3000}CHEESE\n"), "SOL");
}

#[test]
fn a_name_without_exactly_one_dash_stands_for_itself() {
    assert_eq!(parse_other_token_name("CHEESE"), "CHEESE");
    assert_eq!(parse_other_token_name(" CHEESE SOL "), " CHEESE SOL ");
    assert_eq!(parse_other_token_name("CHEESE-SOL-USDC"), "CHEESE-SOL-USDC");
    assert_eq!(parse_other_token_name("CHEESE--SOL"), "CHEESE--SOL");
    assert_eq!(parse_other_token_name(""), "");
}

#[test]
fn a_lone_dash_names_two_empty_tokens() {
    assert_eq!(parse_other_token_name("-"), "");
    assert_eq!(parse_other_token_name("CHEESE-"), "");
    assert_eq!(parse_other_token_name("-CHEESE"), "");
    assert_eq!(parse_other_token_name("SOL-"), "");
    assert_eq!(parse_other_token_name(" - "), "");
}

#[test]
fn cheese_is_recognised_in_any_case() {
    assert!(speaks_of_cheese("Big Cheese Coin"));
    assert!(speaks_of_cheese("CHEESE"));
    assert!(speaks_of_cheese("x\u{1F9C0}y"));
    assert!(!speaks_of_cheese("chees"));
    assert!(!speaks_of_cheese("che ese"));
    assert!(!speaks_of_cheese(""));
}

#[test]
fn blacklist_holds_three_mints() {
    assert!(is_token_blacklisted(OSHO_MINT));
    assert!(is_token_blacklisted(HARA_MINT));
    assert!(is_token_blacklisted(EMPIRE_MINT));
    assert!(is_token_blacklisted("27VkFr6b6DHoR6hSYZjUDbwJsV6MPSFqPavXLg8nduHW"));
    assert!(!is_token_blacklisted(CHEESE_MINT));
    assert!(!is_token_blacklisted(USDC_MINT));
    assert!(!is_token_blacklisted(""));
    assert!(!is_token_blacklisted("27VkFr6b6DHoR6hSYZjUDbwJsV6MPSFqPavXLg8nduH"));
}

#[test]
fn mints_are_the_known_addresses() {
    assert_eq!(CHEESE_MINT, "A3hzGcTxZNSc7744CWB2LR5Tt9VTtEaQYpP6nwripump");
    assert_eq!(USDC_MINT, "EPjFWdd5AufqSSqeM2qN1xzybapC8G4wEGGkZwyTDt1v");
    assert_eq!(USDC_DECIMALS, 6);
}

#[test]
fn truncate_keeps_what_fits() {
    assert_eq!(truncate("Meteora", 44), "Meteora");
    assert_eq!(truncate("Meteora", 7), "Meteora");
    assert_eq!(truncate("", 0), "");
    assert_eq!(truncate("\u{1F9C0}", 4), "\u{1F9C0}");
}

#[test]
fn truncate_cuts_one_short_and_adds_an_ellipsis() {
    assert_eq!(truncate("Meteora", 6), "Meteo\u{2026}");
    assert_eq!(truncate("Meteora", 1), "\u{2026}");
    assert_eq!(truncate("Meteora", 0), "\u{2026}");
    assert_eq!(
        truncate("A3hzGcTxZNSc7744CWB2LR5Tt9VTtEaQYpP6nwripump", 10),
        "A3hzGcTxZ\u{2026}"
    );
}

#[test]
fn truncate_counts_bytes() {
    assert_eq!(truncate("\u{1F9C0}abc", 6), "\u{1F9C0}a\u{2026}");
    assert_eq!(truncate("\u{1F9C0}abc", 5), "\u{1F9C0}\u{2026}");
    assert_eq!(truncate("\u{1F9C0}abc", 1), "\u{2026}");
}

#[test]
fn trimming_takes_white_space_off_both_ends() {
    assert_eq!(trim("  a b  "), "a b");
    assert_eq!(trim("a"), "a");
    assert_eq!(trim("\t\n a"), "a");
    assert_eq!(trim("a \r\n"), "a");
    assert_eq!(trim("   "), "");
    assert_eq!(trim(""), "");
    assert_eq!(trim("\u{2003}\u{1F9C0}\u{00A0}"), "\u{1F9C0}");
}

#[test]
fn trim_bounds_skip_the_flagged_ends() {
    assert_eq!(trim_bounds(&vec![true, true, false, true, false, true]), (2, 5));
    assert_eq!(trim_bounds(&vec![false]), (0, 1));
    assert_eq!(trim_bounds(&vec![false, true, false]), (0, 3));
    assert_eq!(trim_bounds(&vec![true, true]), (0, 0));
    assert_eq!(trim_bounds(&vec![]), (0, 0));
}

#[test]
fn white_space_is_flagged_per_character() {
    assert_eq!(flag_white_space(" a\t\u{1F9C0}\u{00A0}"), vec![true, false, true, false, true]);
    assert_eq!(flag_white_space(""), Vec::<bool>::new());
}

#[test]
fn lowercase_follows_unicode() {
    assert_eq!(lowercase("CHEESE Coin"), "cheese coin");
    assert_eq!(lowercase("\u{00C4}B"), "\u{00E4}b");
    assert_eq!(lowercase(""), "");
}

#[test]
fn infix_search_finds_every_position() {
    assert!(contains_infix("cheese", "cheese"));
    assert!(contains_infix("xcheese", "cheese"));
    assert!(contains_infix("cheesex", "cheese"));
    assert!(contains_infix("chcheese", "cheese"));
    assert!(contains_infix("abc", ""));
    assert!(contains_infix("", ""));
    assert!(!contains_infix("chees", "cheese"));
    assert!(!contains_infix("", "cheese"));
    assert!(!contains_infix("CHEESE", "cheese"));
    assert!(contains_infix("a\u{1F9C0}b", "\u{1F9C0}b"));
}

#[test]
fn find_char_gives_the_first_position_or_the_length() {
    assert_eq!(find_char("a-b-c", '-', 0), 1);
    assert_eq!(find_char("a-b-c", '-', 1), 1);
    assert_eq!(find_char("a-b-c", '-', 2), 3);
    assert_eq!(find_char("a-b-c", '-', 4), 5);
    assert_eq!(find_char("a-b-c", '-', 5), 5);
    assert_eq!(find_char("\u{1F9C0}-b", '-', 0), 1);
    assert_eq!(find_char("", '-', 0), 0);
}

fn item(address: &str, symbol: &str) -> Option<RaydiumMintItem> {
    Some(RaydiumMintItem { address: address.to_string(), symbol: symbol.to_string() })
}

#[test]
fn symbol_lookup_takes_the_last_entry_for_a_mint() {
    let items = vec![item("m1", "ONE"), None, item("m2", "TWO"), item("m1", "UNO"), item("", "NONE")];
    assert_eq!(find_symbol(&items, &"m1".to_string()), Some("UNO".to_string()));
    assert_eq!(find_symbol(&items, &"m2".to_string()), Some("TWO".to_string()));
    assert_eq!(find_symbol(&items, &"m3".to_string()), None);
    assert_eq!(find_symbol(&items, &"".to_string()), None);
    assert_eq!(find_symbol(&vec![], &"m1".to_string()), None);
}

#[test]
fn shown_symbol_falls_back_on_the_pool_name() {
    let items = vec![item("m1", "ONE")];
    assert_eq!(other_symbol(&items, &"m1".to_string(), "CHEESE-SOL"), "ONE");
    assert_eq!(other_symbol(&items, &"m2".to_string(), "CHEESE-SOL"), "SOL");
    assert_eq!(other_symbol(&items, &"m2".to_string(), "SOL-CHEESE"), "SOL");
}

#[test]
fn response_hands_out_its_items_only_on_success() {
    let ok = RaydiumMintIdsResponse { id: "1".to_string(), success: true, data: vec![item("m", "S"), None] };
    let items = ok.into_items().unwrap();
    assert_eq!(items.len(), 2);
    assert_eq!(items[0].as_ref().unwrap().symbol, "S");
    assert!(items[1].is_none());
    let failed = RaydiumMintIdsResponse { id: "2".to_string(), success: false, data: vec![item("m", "S")] };
    assert!(failed.into_items().is_none());
}

#[test]
fn cheese_side_is_found_among_two_mints() {
    let cheese = CHEESE_MINT.to_string();
    let usdc = USDC_MINT.to_string();
    assert_eq!(cheese_sides(&vec![cheese.clone(), usdc.clone()]), (0, 1));
    assert_eq!(cheese_sides(&vec![usdc.clone(), cheese.clone()]), (1, 0));
    assert_eq!(cheese_sides(&vec![usdc.clone(), usdc.clone()]), (1, 0));
    assert_eq!(cheese_sides(&vec![cheese.clone()]), (0, 0));
    assert_eq!(cheese_sides(&vec![]), (0, 0));
    assert_eq!(cheese_sides(&vec![usdc.clone(), cheese.clone(), usdc]), (0, 0));
}

#[test]
fn display_pool_is_a_row_of_text() {
    let row = DisplayPool {
        source: "Meteora".to_string(),
        other_mint: USDC_MINT.to_string(),
        other_symbol: parse_other_token_name("CHEESE-USDC"),
        cheese_qty: "1.00".to_string(),
        other_qty: "2.00".to_string(),
        pool_type: "dynamic".to_string(),
        liquidity_usd: "3.00".to_string(),
        volume_usd: "4.00".to_string(),
        fee: "0.25".to_string(),
        pool_address: "pool".to_string(),
    };
    assert_eq!(row.other_symbol, "USDC");
    assert_eq!(truncate(&row.other_mint, 10), "EPjFWdd5A\u{2026}");
}
