use permadeath_launcher::options::GameOptions;
use permadeath_launcher::options::GarbageCollector;
use permadeath_launcher::options::LauncherOptions;
use permadeath_launcher::options::base_vm_flags;

#[test]
fn defaults_are_the_documented_ones() {
    let game = GameOptions::new();
    assert_eq!(game.get_max_ram(), 4096);
    let flags = game.get_vm_flags();
    // The ten base flags plus the collector's selection flag.
    assert_eq!(flags.len(), 11);
    assert_eq!(flags[0], "-XX:MaxGCPauseMillis=100");
    assert_eq!(flags[10], "-XX:+UseG1GC");

    let launcher = LauncherOptions::new();
    assert!(!launcher.init_on_start);
    assert!(launcher.auto_update);
    assert!(!launcher.notification_enabled);
    assert!(!launcher.debug_console);
}

#[test]
fn base_flags_are_fixed() {
    let flags = base_vm_flags();
    assert_eq!(flags.len(), 10);
    assert_eq!(flags[9], "-XX:+UnlockExperimentalVMOptions");
}

#[test]
fn collector_choice_changes_the_last_flag() {
    let mut game = GameOptions::new();
    game.set_garbage_collector(GarbageCollector::ZGC);
    let flags = game.get_vm_flags();
    assert_eq!(flags.last().unwrap(), "-XX:+UseZGC");
    game.set_garbage_collector(GarbageCollector::Shenandoah);
    assert_eq!(game.get_vm_flags().last().unwrap(), "-XX:+UseShenandoahGC");
}

#[test]
fn add_vm_flag_ignores_duplicates() {
    let mut game = GameOptions::new();
    let before = game.get_vm_flags().len();
    game.add_vm_flag("-XX:MaxGCPauseMillis=100".to_string());
    assert_eq!(game.get_vm_flags().len(), before);
    game.add_vm_flag("-Xmx1G".to_string());
    let flags = game.get_vm_flags();
    assert_eq!(flags.len(), before + 1);
    assert!(flags.contains(&"-Xmx1G".to_string()));
}

#[test]
fn remove_vm_flag_drops_every_match() {
    let mut game = GameOptions::new();
    game.remove_vm_flag("-Xverify:none");
    let flags = game.get_vm_flags();
    assert!(!flags.contains(&"-Xverify:none".to_string()));
    assert_eq!(flags.len(), 10);
    // Removing an absent flag changes nothing.
    game.remove_vm_flag("-Xverify:none");
    assert_eq!(game.get_vm_flags().len(), 10);
}

#[test]
fn max_ram_is_settable() {
    let mut game = GameOptions::new();
    game.set_max_ram(8192);
    assert_eq!(game.get_max_ram(), 8192);
}

#[test]
fn all_five_collectors_are_offered() {
    let collectors = GameOptions::get_garbage_collectors();
    assert_eq!(collectors.len(), 5);
    assert_eq!(collectors[0], GarbageCollector::Serial);
    assert_eq!(collectors[4], GarbageCollector::Shenandoah);
}

#[test]
fn default_game_dir_ends_with_the_game_folder() {
    if let Some(dir) = LauncherOptions::get_default_game_dir() {
        assert!(dir.ends_with("/.Permadeath"));
    }
}
