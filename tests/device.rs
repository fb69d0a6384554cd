use auriya::config::{gamelist_path, settings_path, GameList, GameListError, GameProfile, TargetFpsConfig};
use auriya::cpu::{classify_cores, get_affinity_mask_for_profile, parse_online_cores, ALL_CORES};
use auriya::tuning::{
    apply_balanced_lmk, apply_gaming_lmk, apply_powersave_lmk, calculate_lmk_for_ram, detect_soc,
    detect_vendor, get_available_schedulers, get_current_scheduler, is_block_device,
    select_best_gaming_scheduler, should_apply_lmk, GpuVendor, IoScheduler, SocType,
};
use auriya::buffer::TargetFps;
use auriya::types::{LogLevel, ProfileMode};

#[test]
fn classify_prime_big_little() {
    // 1.8, 1.8, 2.4, 2.4 and 3.0 GHz, in kHz.
    let cores = vec![0, 1, 2, 3, 4];
    let freqs = vec![Some(1_800_000), Some(1_800_000), Some(2_400_000), Some(2_400_000), Some(3_000_000)];
    let (little, big, prime) = classify_cores(&cores, &freqs).unwrap();
    assert_eq!(prime, 1 << 4);
    assert_eq!(big, (1 << 2) | (1 << 3));
    assert_eq!(little, (1 << 0) | (1 << 1));
}

#[test]
fn classify_eight_cores() {
    let cores = vec![0, 1, 2, 3, 4, 5, 6, 7];
    let freqs = vec![
        Some(1_800_000),
        Some(1_800_000),
        Some(1_800_000),
        Some(1_800_000),
        Some(2_400_000),
        Some(2_400_000),
        Some(2_400_000),
        Some(3_200_000),
    ];
    let (little, big, prime) = classify_cores(&cores, &freqs).unwrap();
    // The median of the seven others is 1.8 GHz: all of them are big.
    assert_eq!(prime, 1 << 7);
    assert_eq!(big, 0b0111_1111);
    assert_eq!(little, 0);
}

#[test]
fn classify_slow_cores_are_little_and_ties_pick_first() {
    let cores = vec![0, 1, 2];
    let freqs = vec![Some(900_000), Some(900_000), Some(900_000)];
    let (little, big, prime) = classify_cores(&cores, &freqs).unwrap();
    assert_eq!(prime, 1);
    assert_eq!(big, 0);
    assert_eq!(little, 0b110);
}

#[test]
fn classify_without_frequencies_fails_open() {
    let cores = vec![0, 2, 5];
    let none = classify_cores(&cores, &vec![None, None, None]);
    assert_eq!(none, None);
    // Without a topology every profile gets every core.
    for profile in ["performance", "balance", "powersave", "other"] {
        assert_eq!(get_affinity_mask_for_profile(profile, none), ALL_CORES);
    }
    let (_, big2, prime2) = classify_cores(&cores, &vec![None, Some(2_000_000), None]).unwrap();
    assert_eq!(prime2, 1 << 2);
    assert_eq!(big2, 0);
}

#[test]
fn affinity_masks_by_profile() {
    let classes = Some((0b0011u64, 0b1100u64, 0b1_0000u64));
    assert_eq!(get_affinity_mask_for_profile("performance", classes), 0b1_1100);
    assert_eq!(get_affinity_mask_for_profile("balance", classes), 0b1100);
    assert_eq!(get_affinity_mask_for_profile("powersave", classes), 0b0011);
    assert_eq!(get_affinity_mask_for_profile("other", classes), 0b1_1100);
    assert_eq!(get_affinity_mask_for_profile("balance", None), ALL_CORES);
}

#[test]
fn online_core_lists() {
    assert_eq!(parse_online_cores("0-3,5\n"), vec![0, 1, 2, 3, 5]);
    assert_eq!(parse_online_cores("0"), vec![0]);
    assert_eq!(parse_online_cores("0-1-2,x,4-4,7-6"), vec![4]);
    assert_eq!(parse_online_cores(""), Vec::<usize>::new());
}

fn profile(pkg: &str) -> GameProfile {
    GameProfile::managed_default(pkg.to_string())
}

#[test]
fn game_list_edits() {
    let mut gl = GameList::new();
    assert!(gl.add(profile("com.a")).is_ok());
    assert!(gl.add(profile("com.b")).is_ok());
    match gl.add(profile("com.a")) {
        Err(e) => assert_eq!(e.message(), "Game com.a already exists"),
        Ok(_) => panic!("a package is listed once"),
    }
    assert_eq!(gl.game.len(), 2);
    assert_eq!(gl.find("com.b").map(|g| g.package.clone()), Some("com.b".to_string()));
    assert!(gl.find("com.c").is_none());
    assert!(gl
        .update_with_array("com.a", Some("schedutil".to_string()), Some(false), Some(90), Some(120), None, Some(vec![60, 90]))
        .is_ok());
    let a = gl.find("com.a").unwrap();
    assert_eq!(a.cpu_governor, "schedutil");
    assert!(!a.enable_dnd);
    assert!(matches!(a.target_fps, Some(TargetFpsConfig::Array(ref v)) if *v == vec![60, 90]));
    assert_eq!(a.refresh_rate, Some(120));
    assert_eq!(a.mode, Some("performance".to_string()));
    assert!(gl.update_with_array("com.a", None, None, Some(75), None, None, None).is_ok());
    assert!(matches!(gl.find("com.a").unwrap().target_fps, Some(TargetFpsConfig::Single(75))));
    assert!(matches!(
        gl.update_with_array("com.z", None, None, None, None, None, None),
        Err(GameListError::NotFound(ref p)) if p == "com.z"
    ));
    assert!(gl.remove("com.a").is_ok());
    assert_eq!(gl.game.len(), 1);
    match gl.remove("com.a") {
        Err(e) => assert_eq!(e.message(), "Game com.a not found"),
        Ok(_) => panic!("removed twice"),
    }
}

#[test]
fn target_config_converts() {
    assert!(matches!(TargetFpsConfig::Single(90).to_buffer_config(), TargetFps::Single(90)));
    assert!(matches!(TargetFpsConfig::Array(vec![1, 2]).to_buffer_config(), TargetFps::Array(ref v) if *v == vec![1, 2]));
    assert!(matches!(TargetFpsConfig::default(), TargetFpsConfig::Single(60)));
}

#[test]
fn config_paths() {
    assert_eq!(settings_path(), "/data/adb/.config/auriya/settings.toml");
    assert_eq!(gamelist_path(), "/data/adb/.config/auriya/gamelist.toml");
}

#[test]
fn lmk_bands_and_thresholds() {
    assert!(should_apply_lmk(3072));
    assert!(should_apply_lmk(8192));
    assert!(!should_apply_lmk(8193));
    assert!(!should_apply_lmk(16384));
    let c = calculate_lmk_for_ram(4096, "gaming");
    // 4096 MB is 1048576 pages of 4 KiB.
    assert_eq!(c.minfree, "52428,83886,125829,471859,734003,996147");
    assert_eq!(c.adj, "0,1,2,4,9,15");
    assert_eq!(calculate_lmk_for_ram(1000, "balanced").minfree, "25600,38400,51200,128000,192000,243200");
    assert_eq!(calculate_lmk_for_ram(1000, "powersave").minfree, "38400,64000,89600,153600,204800,243200");
    assert_eq!(calculate_lmk_for_ram(1000, "other").minfree, calculate_lmk_for_ram(1000, "gaming").minfree);
    assert_eq!(apply_gaming_lmk(None).unwrap().minfree, c.minfree);
    assert!(apply_balanced_lmk(Some(12288)).is_none());
    assert!(apply_powersave_lmk(Some(2048)).is_some());
}

#[test]
fn scheduler_preference() {
    assert_eq!(
        select_best_gaming_scheduler(&vec![IoScheduler::Cfq, IoScheduler::Bfq, IoScheduler::MqDeadline]),
        Some(IoScheduler::Bfq)
    );
    assert_eq!(select_best_gaming_scheduler(&vec![IoScheduler::MqDeadline, IoScheduler::Kyber]), Some(IoScheduler::Kyber));
    assert_eq!(select_best_gaming_scheduler(&vec![]), None);
    assert_eq!(IoScheduler::from_name("mq-deadline"), Some(IoScheduler::MqDeadline));
    assert_eq!(IoScheduler::from_name("none"), None);
    assert_eq!(IoScheduler::Kyber.name(), "kyber");
}

#[test]
fn vendor_and_soc_detection() {
    assert_eq!(detect_vendor(true), GpuVendor::Adreno);
    assert_eq!(detect_vendor(false), GpuVendor::Unknown);
    assert_eq!(detect_soc(Some("MT6893"), None, false, false), SocType::MediaTek);
    assert_eq!(detect_soc(Some("kalama"), Some("qcom"), false, false), SocType::Snapdragon);
    assert_eq!(detect_soc(Some("SM8550"), None, false, false), SocType::Snapdragon);
    assert_eq!(detect_soc(Some("exynos2100"), None, false, false), SocType::Exynos);
    assert_eq!(detect_soc(Some("ums512"), None, false, false), SocType::Unisoc);
    assert_eq!(detect_soc(Some("gs201"), None, false, false), SocType::Tensor);
    assert_eq!(detect_soc(None, Some("Samsung-x"), false, false), SocType::Exynos);
    assert_eq!(detect_soc(None, None, true, true), SocType::MediaTek);
    assert_eq!(detect_soc(None, None, false, true), SocType::Snapdragon);
    assert_eq!(detect_soc(None, None, false, false), SocType::Unknown);
    assert_eq!(SocType::Tensor.name(), "Tensor");
}

#[test]
fn profile_and_level_names() {
    assert_eq!(ProfileMode::from_str_ignore_case("PerFormance"), Some(ProfileMode::Performance));
    assert_eq!(ProfileMode::from_str_ignore_case("balance"), Some(ProfileMode::Balance));
    assert_eq!(ProfileMode::from_str_ignore_case("POWERSAVE"), Some(ProfileMode::Powersave));
    assert_eq!(ProfileMode::from_str_ignore_case("turbo"), None);
    assert_eq!(ProfileMode::Balance.to_upper_str(), "BALANCE");
    assert_eq!(ProfileMode::Powersave.to_lower_str(), "powersave");
    assert_eq!(LogLevel::Warn.to_upper_str(), "WARN");
    assert_eq!(LogLevel::Error.to_lower_str(), "error");
}

#[test]
fn profile_file_codes() {
    assert_eq!(ProfileMode::Performance.file_code(), "1");
    assert_eq!(ProfileMode::Balance.file_code(), "2");
    assert_eq!(ProfileMode::Powersave.file_code(), "3");
}

#[test]
fn scheduler_file_parsing() {
    let text = "none [mq-deadline] kyber bfq\n";
    assert_eq!(
        get_available_schedulers(text),
        vec![IoScheduler::MqDeadline, IoScheduler::Kyber, IoScheduler::Bfq]
    );
    assert_eq!(get_current_scheduler(text), Some(IoScheduler::MqDeadline));
    assert_eq!(get_current_scheduler("[none] kyber"), None);
    assert_eq!(get_current_scheduler("noop cfq"), None);
    assert_eq!(select_best_gaming_scheduler(&get_available_schedulers(text)), Some(IoScheduler::Kyber));
}

#[test]
fn block_devices() {
    assert!(is_block_device("sda"));
    assert!(is_block_device("mmcblk0"));
    assert!(is_block_device("nvme0n1"));
    assert!(!is_block_device("loop7"));
    assert!(!is_block_device("zram0"));
    assert!(!is_block_device("dm-3"));
    assert!(!is_block_device("ram0"));
    assert!(!is_block_device("md0"));
}

#[test]
fn case_mapping_follows_unicode_rules() {
    // KELVIN SIGN lower-cases to `k`: "K6xx" names a MediaTek platform.
    assert_eq!(detect_soc(Some("\u{212A}6877"), None, false, false), SocType::MediaTek);
    assert_eq!(auriya::tuning::soc_from_lowered(Some("k6877"), None, false, false), SocType::MediaTek);
    assert_eq!(auriya::tuning::soc_from_lowered(Some("K6877"), None, false, false), SocType::Unknown);
    assert_eq!(ProfileMode::from_lower("balance"), Some(ProfileMode::Balance));
    assert_eq!(ProfileMode::from_lower("Balance"), None);
    assert_eq!(apply_powersave_lmk(Some(2048)).unwrap().adj, "0,1,2,4,9,15");
}
