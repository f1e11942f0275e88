use fm26_mod_manager::adboards::{
    parse_adboards_config, read_adboards_config, update_adboards_in_config, write_adboards_config,
};
use fm26_mod_manager::configs::{format_stadium_injection_config, parse_stadium_injection_config};
use fm26_mod_manager::models::{AdboardsConfig, ReadFailed, StadiumInjectionConfig};

fn on() -> AdboardsConfig {
    AdboardsConfig { disable_adboards: true }
}

fn off() -> AdboardsConfig {
    AdboardsConfig { disable_adboards: false }
}

fn metres(text: &str) -> i32 {
    text.parse::<f32>().unwrap_or(0.0) as i32
}

#[test]
fn the_setting_is_off_by_default() {
    assert_eq!(AdboardsConfig::default(), off());
    assert_eq!(parse_adboards_config(""), off());
    assert_eq!(read_adboards_config(Ok(None)), Ok(off()));
    assert_eq!(read_adboards_config(Ok(Some("DisableAdboards = 1"))), Ok(on()));
    assert_eq!(read_adboards_config(Err(ReadFailed)), Err(ReadFailed));
}

#[test]
fn the_setting_is_read_from_any_section() {
    assert_eq!(parse_adboards_config("[General]\nDisableAdboards = true\n"), on());
    assert_eq!(parse_adboards_config("DisableAdboards = On\n"), on());
    assert_eq!(parse_adboards_config("[Adboards]\nDisableAdboards = no\n"), off());
    assert_eq!(parse_adboards_config("# DisableAdboards = true\n"), off());
    assert_eq!(parse_adboards_config("DisableAdboardsNow = true\n"), off());
}

#[test]
fn a_file_without_the_section_gets_one_at_its_end() {
    assert_eq!(
        update_adboards_in_config("[General]\nEnableCustomStadiums = true\n", &on()),
        "[General]\nEnableCustomStadiums = true\n\n[Adboards]\n\n## If true, hide all adboards in the stadium.\nDisableAdboards = true"
    );
}

#[test]
fn an_empty_file_gets_the_section() {
    let expected = "\n[Adboards]\n\n## If true, hide all adboards in the stadium.\nDisableAdboards = false";
    assert_eq!(update_adboards_in_config("", &off()), expected);
    assert_eq!(write_adboards_config(Ok(None), &off()), Ok(expected.to_string()));
    assert_eq!(write_adboards_config(Ok(Some("")), &off()), Ok(expected.to_string()));
    assert_eq!(
        write_adboards_config(Ok(Some("[Adboards]\nDisableAdboards = false")), &on()),
        Ok("[Adboards]\nDisableAdboards = true".to_string())
    );
}

#[test]
fn the_setting_is_replaced_in_place() {
    let text = "# head\n[Adboards]\n## note\n  DisableAdboards=false  \nOther = 1\n[Tail]\nx = y\n";
    assert_eq!(
        update_adboards_in_config(text, &on()),
        "# head\n[Adboards]\n## note\nDisableAdboards = true\nOther = 1\n[Tail]\nx = y"
    );
}

#[test]
fn a_section_that_lacks_the_setting_gets_it_before_the_next_header() {
    let text = "[Adboards]\n## note\n[Tail]\nx = y\n";
    assert_eq!(
        update_adboards_in_config(text, &off()),
        "[Adboards]\n## note\nDisableAdboards = false\n\n[Tail]\nx = y"
    );
}

#[test]
fn a_section_at_the_end_that_lacks_the_setting_gets_it_as_last_line() {
    assert_eq!(
        update_adboards_in_config("[General]\na = b\n[Adboards]\n", &on()),
        "[General]\na = b\n[Adboards]\nDisableAdboards = true"
    );
}

#[test]
fn the_setting_outside_its_section_is_left_alone() {
    let text = "DisableAdboards = false\n[General]\nDisableAdboards = false\n";
    assert_eq!(
        update_adboards_in_config(text, &on()),
        "DisableAdboards = false\n[General]\nDisableAdboards = false\n\n[Adboards]\n\n## If true, hide all adboards in the stadium.\nDisableAdboards = true"
    );
}

#[test]
fn a_file_that_could_not_be_read_is_not_written_over() {
    assert_eq!(write_adboards_config(Err(ReadFailed), &on()), Err(ReadFailed));
    assert_eq!(write_adboards_config(Err(ReadFailed), &off()), Err(ReadFailed));
}

#[test]
fn a_key_that_only_begins_like_the_setting_is_another_key() {
    assert_eq!(
        update_adboards_in_config("[Adboards]\nDisableAdboardsV2 = 1", &on()),
        "[Adboards]\nDisableAdboardsV2 = 1\nDisableAdboards = true"
    );
    assert_eq!(
        update_adboards_in_config("[Adboards]\nDisableAdboardsToo = 1\nDisableAdboards\n", &on()),
        "[Adboards]\nDisableAdboardsToo = 1\nDisableAdboards\nDisableAdboards = true"
    );
    assert_eq!(
        update_adboards_in_config(
            "[Adboards]\nDisableAdboardsV2 = 1\nDisableAdboards = false\nDisable = 0\n",
            &on()
        ),
        "[Adboards]\nDisableAdboardsV2 = 1\nDisableAdboards = true\nDisable = 0"
    );
    assert_eq!(
        update_adboards_in_config("[Adboards]\n# DisableAdboards = false\ndisableadboards = 1\n", &on()),
        "[Adboards]\n# DisableAdboards = false\ndisableadboards = 1\nDisableAdboards = true"
    );
}

#[test]
fn every_assignment_of_the_setting_in_its_section_is_replaced() {
    let text = "[Adboards]\nDisableAdboards=0\n  DisableAdboards   =   yes = no \n";
    assert_eq!(
        update_adboards_in_config(text, &on()),
        "[Adboards]\nDisableAdboards = true\nDisableAdboards = true"
    );
}

#[test]
fn a_second_section_of_the_name_gets_no_second_setting() {
    let text = "[Adboards]\n[Other]\n[Adboards]\nx = 1\n";
    assert_eq!(
        update_adboards_in_config(text, &on()),
        "[Adboards]\nDisableAdboards = true\n\n[Other]\n[Adboards]\nx = 1"
    );
}

#[test]
fn the_header_has_to_match_exactly() {
    let text = "[ Adboards ]\nDisableAdboards = false\n[adboards]\nDisableAdboards = false\n";
    let merged = update_adboards_in_config(text, &on());
    assert!(merged.starts_with(text.trim_end()));
    assert!(merged.ends_with("\n\n[Adboards]\n\n## If true, hide all adboards in the stadium.\nDisableAdboards = true"));
}

#[test]
fn merging_twice_changes_nothing_more() {
    let texts = [
        "",
        "[General]\nEnableCustomStadiums = true\n",
        "[Adboards]\n",
        "[Adboards]\nDisableAdboards = false\n",
        "[Adboards]\n[Other]\n[Adboards]\n",
        "# only a comment",
        "a\r\nb\r\n[Adboards]\r\nDisableAdboards = 0\r\n[Z]\r\n",
        "[Adboards]\nDisableAdboardsToo = 1\nDisableAdboards\n",
        "DisableAdboards = true",
    ];
    for text in texts {
        for config in [on(), off()] {
            let once = update_adboards_in_config(text, &config);
            let twice = update_adboards_in_config(&once, &config);
            assert_eq!(twice, once, "{:?}", text);
            assert_eq!(parse_adboards_config(&once), config, "{:?}", text);
        }
    }
}

#[test]
fn merging_into_a_fresh_file_is_idempotent_and_keeps_the_settings() {
    let stadium = StadiumInjectionConfig::default();
    let fresh = format_stadium_injection_config(&stadium);
    let once = update_adboards_in_config(&fresh, &on());
    assert_eq!(update_adboards_in_config(&once, &on()), once);
    assert_eq!(parse_stadium_injection_config(&once, metres), stadium);
    assert_eq!(parse_adboards_config(&once), on());
    let back = update_adboards_in_config(&once, &off());
    assert_eq!(parse_adboards_config(&back), off());
    assert_eq!(back.lines().count(), once.lines().count());
}

#[test]
fn an_empty_last_line_is_lost_with_each_merge() {
    let text = "[Adboards]\nDisableAdboards = true\n\n";
    let once = update_adboards_in_config(text, &on());
    assert_eq!(once, "[Adboards]\nDisableAdboards = true\n");
    assert_eq!(update_adboards_in_config(&once, &on()), "[Adboards]\nDisableAdboards = true");
}

#[test]
fn a_carriage_return_before_the_end_is_lost_with_the_next_merge() {
    let once = update_adboards_in_config("x\r", &on());
    assert!(once.starts_with("x\r\n\n[Adboards]"));
    let twice = update_adboards_in_config(&once, &on());
    assert!(twice.starts_with("x\n\n[Adboards]"));
}

#[test]
fn lines_that_are_not_aimed_at_stay_in_their_order() {
    let text = "# written by hand\n[General]\nDisableAdboards = keep me\n; another note\n[Adboards]\nDisableAdboards = false\nColour = red\n[Tail]\n   indented = yes   \n";
    let merged = update_adboards_in_config(text, &on());
    let kept: Vec<&str> = text
        .lines()
        .enumerate()
        .filter(|(i, _)| *i != 5)
        .map(|(_, l)| l)
        .collect();
    let mut position = 0;
    let merged_lines: Vec<&str> = merged.lines().collect();
    for line in kept {
        let found = merged_lines[position..].iter().position(|l| *l == line);
        assert!(found.is_some(), "{:?}", line);
        position += found.unwrap() + 1;
    }
    assert_eq!(merged_lines[5], "DisableAdboards = true");
    assert_eq!(merged_lines.len(), text.lines().count());
}
