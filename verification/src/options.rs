//! Launcher and game preferences: the directories the launcher works in,
//! and the JVM configuration the game is started with.

use vstd::prelude::*;
use vstd::string::*;

verus! {

/// The garbage collectors the game's JVM can be asked to use.
#[derive(Clone, Copy, Debug, PartialEq, Eq, Structural)]
pub enum GarbageCollector {
    Serial,
    Parallel,
    G1GC,
    ZGC,
    Shenandoah,
}

/// The JVM flags every configuration starts from.
pub open spec fn base_vm_flags_spec() -> Seq<Seq<char>> {
    seq![
        "-XX:MaxGCPauseMillis=100"@,
        "-XX:G1NewSizePercent=30"@,
        "-XX:G1ReservePercent=20"@,
        "-XX:+UseStringDeduplication"@,
        "-XX:G1HeapRegionSize=32M"@,
        "-XX:+TieredCompilation"@,
        "-XX:+AlwaysPreTouch"@,
        "-Dsun.java2d.opengl=true"@,
        "-Xverify:none"@,
        "-XX:+UnlockExperimentalVMOptions"@,
    ]
}

/// The base JVM flags, in their fixed order.
pub fn base_vm_flags() -> (r: Vec<String>)
    ensures
        r@.len() == base_vm_flags_spec().len(),
        forall|i: int| 0 <= i < r@.len() ==> (#[trigger] r@[i])@ == base_vm_flags_spec()[i],
{
    let mut flags: Vec<String> = Vec::new();
    flags.push(String::from_str("-XX:MaxGCPauseMillis=100"));
    flags.push(String::from_str("-XX:G1NewSizePercent=30"));
    flags.push(String::from_str("-XX:G1ReservePercent=20"));
    flags.push(String::from_str("-XX:+UseStringDeduplication"));
    flags.push(String::from_str("-XX:G1HeapRegionSize=32M"));
    flags.push(String::from_str("-XX:+TieredCompilation"));
    flags.push(String::from_str("-XX:+AlwaysPreTouch"));
    flags.push(String::from_str("-Dsun.java2d.opengl=true"));
    flags.push(String::from_str("-Xverify:none"));
    flags.push(String::from_str("-XX:+UnlockExperimentalVMOptions"));
    flags
}

/// The flag that selects a garbage collector.
pub open spec fn gc_flag_spec(gc: GarbageCollector) -> Seq<char> {
    match gc {
        GarbageCollector::Serial => "-XX:+UseSerialGC"@,
        GarbageCollector::Parallel => "-XX:+UseParallelGC"@,
        GarbageCollector::G1GC => "-XX:+UseG1GC"@,
        GarbageCollector::ZGC => "-XX:+UseZGC"@,
        GarbageCollector::Shenandoah => "-XX:+UseShenandoahGC"@,
    }
}

fn gc_flag(gc: &GarbageCollector) -> (r: &'static str)
    ensures
        r@ == gc_flag_spec(*gc),
{
    match gc {
        GarbageCollector::Serial => "-XX:+UseSerialGC",
        GarbageCollector::Parallel => "-XX:+UseParallelGC",
        GarbageCollector::G1GC => "-XX:+UseG1GC",
        GarbageCollector::ZGC => "-XX:+UseZGC",
        GarbageCollector::Shenandoah => "-XX:+UseShenandoahGC",
    }
}

/// Relies on `dirs_next::config_dir`: the platform's per-user configuration
/// directory rendered as text, when the platform defines one. The answer
/// depends on the machine and environment, so nothing is promised of it.
#[verifier::external_body]
fn config_dir_string() -> (r: Option<String>)
{
    dirs_next::config_dir().map(|p| p.to_string_lossy().into_owned())
}

/// Relies on `dirs_next::data_dir`: the platform's per-user data directory
/// rendered as text, when the platform defines one. The answer depends on
/// the machine and environment, so nothing is promised of it.
#[verifier::external_body]
fn data_dir_string() -> (r: Option<String>)
{
    dirs_next::data_dir().map(|p| p.to_string_lossy().into_owned())
}

/// Whether `s` ends in `suffix`.
pub open spec fn ends_with(s: Seq<char>, suffix: Seq<char>) -> bool {
    s.len() >= suffix.len() && s.subrange(s.len() - suffix.len(), s.len() as int) == suffix
}

/// The launcher's own preferences, with the directories it works in. A
/// missing directory means the platform offered no place for it.
#[derive(Debug)]
pub struct LauncherOptions {
    pub launcher_dir: Option<String>,
    pub game_dir: Option<String>,
    pub init_on_start: bool,
    pub auto_update: bool,
    pub notification_enabled: bool,
    pub debug_console: bool,
    pub automatic_backup: bool,
}

impl Clone for LauncherOptions {
    fn clone(&self) -> (r: Self)
        ensures
            r == *self,
    {
        LauncherOptions {
            launcher_dir: match &self.launcher_dir {
                Some(d) => Some(d.clone()),
                None => None,
            },
            game_dir: match &self.game_dir {
                Some(d) => Some(d.clone()),
                None => None,
            },
            init_on_start: self.init_on_start,
            auto_update: self.auto_update,
            notification_enabled: self.notification_enabled,
            debug_console: self.debug_console,
            automatic_backup: self.automatic_backup,
        }
    }
}

impl LauncherOptions {
    /// Default options: the launcher and game directories under the
    /// platform's configuration and data directories, and the default
    /// switches.
    pub fn new() -> (r: Self)
        ensures
            r.launcher_dir matches Some(d) ==> ends_with(d@, "/.Permadeath-Launcher"@),
            r.game_dir matches Some(d) ==> ends_with(d@, "/.Permadeath"@),
            r.init_on_start == false,
            r.auto_update == true,
            r.notification_enabled == false,
            r.debug_console == false,
            r.automatic_backup == true,
    {
        let launcher_dir = match config_dir_string() {
            Some(base) => {
                let ghost base_view = base@;
                let mut dir = base;
                dir.append("/.Permadeath-Launcher");
                proof {
                    assert(dir@.subrange(base_view.len() as int, dir@.len() as int)
                        =~= "/.Permadeath-Launcher"@);
                }
                Some(dir)
            },
            None => None,
        };
        let game_dir = match data_dir_string() {
            Some(base) => {
                let ghost base_view = base@;
                let mut dir = base;
                dir.append("/.Permadeath");
                proof {
                    assert(dir@.subrange(base_view.len() as int, dir@.len() as int)
                        =~= "/.Permadeath"@);
                }
                Some(dir)
            },
            None => None,
        };
        LauncherOptions {
            launcher_dir,
            game_dir,
            init_on_start: false,
            auto_update: true,
            notification_enabled: false,
            debug_console: false,
            automatic_backup: true,
        }
    }

    /// The directory the game installs into by default, when the platform
    /// offers a data directory.
    pub fn get_default_game_dir() -> (r: Option<String>)
        ensures
            r matches Some(d) ==> ends_with(d@, "/.Permadeath"@),
    {
        match data_dir_string() {
            Some(base) => {
                let ghost base_view = base@;
                let mut dir = base;
                dir.append("/.Permadeath");
                proof {
                    assert(dir@.subrange(base_view.len() as int, dir@.len() as int)
                        =~= "/.Permadeath"@);
                }
                Some(dir)
            },
            None => None,
        }
    }
}

/// Whether some flag in the list reads as `f`.
pub open spec fn has_flag(flags: Seq<String>, f: Seq<char>) -> bool {
    exists|i: int| 0 <= i < flags.len() && (#[trigger] flags[i])@ == f
}

/// Keeps every flag that does not read as `f`.
pub open spec fn keeps(f: Seq<char>) -> spec_fn(String) -> bool {
    |s: String| s@ != f
}

/// The game's JVM configuration: memory ceiling, flags, collector.
#[derive(Debug)]
pub struct GameOptions {
    pub max_ram: u32,
    pub vm_flags: Vec<String>,
    pub garbage_collector: GarbageCollector,
}

impl Clone for GameOptions {
    fn clone(&self) -> (r: Self)
        ensures
            r.max_ram() == self.max_ram(),
            r.vm_flags() == self.vm_flags(),
            r.gc() == self.gc(),
    {
        let mut vm_flags: Vec<String> = Vec::new();
        let n = self.vm_flags.len();
        let mut i: usize = 0;
        while i < n
            invariant
                0 <= i <= n,
                n == self.vm_flags@.len(),
                vm_flags@ =~= self.vm_flags@.subrange(0, i as int),
            decreases n - i,
        {
            vm_flags.push(self.vm_flags[i].clone());
            proof {
                assert(vm_flags@ =~= self.vm_flags@.subrange(0, i + 1));
            }
            i += 1;
        }
        proof {
            assert(self.vm_flags@.subrange(0, n as int) =~= self.vm_flags@);
        }
        GameOptions { max_ram: self.max_ram, vm_flags, garbage_collector: self.garbage_collector }
    }
}

impl GameOptions {
    /// The default configuration: four gigabytes, the base flags, G1.
    pub fn new() -> (r: Self)
        ensures
            r.max_ram() == 4096,
            r.vm_flags().len() == base_vm_flags_spec().len(),
            forall|i: int|
                0 <= i < r.vm_flags().len() ==> (#[trigger] r.vm_flags()[i])@
                    == base_vm_flags_spec()[i],
            r.gc() == GarbageCollector::G1GC,
    {
        GameOptions {
            max_ram: 4096,
            vm_flags: base_vm_flags(),
            garbage_collector: GarbageCollector::G1GC,
        }
    }

    /// The configured memory ceiling, in megabytes.
    pub open spec fn max_ram(self) -> u32 {
        self.max_ram
    }

    /// The configured flag list.
    pub open spec fn vm_flags(self) -> Seq<String> {
        self.vm_flags@
    }

    /// The configured collector.
    pub open spec fn gc(self) -> GarbageCollector {
        self.garbage_collector
    }

    pub fn get_max_ram(&self) -> (r: u32)
        ensures
            r == self.max_ram(),
    {
        self.max_ram
    }

    /// The full flag list handed to the JVM: the configured flags, with the
    /// collector's selection flag appended last.
    pub fn get_vm_flags(&self) -> (r: Vec<String>)
        ensures
            r@.len() == self.vm_flags().len() + 1,
            forall|i: int| 0 <= i < self.vm_flags().len() ==> r@[i] == self.vm_flags()[i],
            r@.last()@ == gc_flag_spec(self.gc()),
    {
        let mut flags: Vec<String> = Vec::new();
        let n = self.vm_flags.len();
        let mut i: usize = 0;
        while i < n
            invariant
                0 <= i <= n,
                n == self.vm_flags@.len(),
                flags@ =~= self.vm_flags@.subrange(0, i as int),
            decreases n - i,
        {
            flags.push(self.vm_flags[i].clone());
            proof {
                assert(flags@ =~= self.vm_flags@.subrange(0, i + 1));
            }
            i += 1;
        }
        proof {
            assert(self.vm_flags@.subrange(0, n as int) =~= self.vm_flags@);
        }
        flags.push(gc_flag(&self.garbage_collector).to_owned());
        flags
    }

    pub fn set_max_ram(&mut self, ram_mb: u32)
        ensures
            final(self).max_ram() == ram_mb,
            final(self).vm_flags() == old(self).vm_flags(),
            final(self).gc() == old(self).gc(),
    {
        self.max_ram = ram_mb;
    }

    /// Adds a flag unless an equal one is already listed.
    pub fn add_vm_flag(&mut self, flag: String)
        ensures
            final(self).max_ram() == old(self).max_ram(),
            final(self).gc() == old(self).gc(),
            has_flag(old(self).vm_flags(), flag@) ==> final(self).vm_flags() == old(
                self,
            ).vm_flags(),
            !has_flag(old(self).vm_flags(), flag@) ==> final(self).vm_flags() == old(
                self,
            ).vm_flags().push(flag),
    {
        let n = self.vm_flags.len();
        let mut i: usize = 0;
        while i < n
            invariant
                0 <= i <= n,
                n == self.vm_flags@.len(),
                forall|j: int| 0 <= j < i ==> (#[trigger] self.vm_flags@[j])@ != flag@,
            decreases n - i,
        {
            if self.vm_flags[i] == flag {
                return ;
            }
            i += 1;
        }
        self.vm_flags.push(flag);
    }

    /// Removes every flag that reads as `flag`.
    pub fn remove_vm_flag(&mut self, flag: &str)
        ensures
            final(self).max_ram() == old(self).max_ram(),
            final(self).gc() == old(self).gc(),
            final(self).vm_flags() == old(self).vm_flags().filter(keeps(flag@)),
    {
        let flag_s = flag.to_owned();
        let n = self.vm_flags.len();
        let mut kept: Vec<String> = Vec::new();
        let mut i: usize = 0;
        proof {
            reveal(Seq::filter);
            assert(old(self).vm_flags@.subrange(0, 0) =~= Seq::<String>::empty());
        }
        while i < n
            invariant
                0 <= i <= n,
                *self == *old(self),
                n == self.vm_flags@.len(),
                flag_s@ == flag@,
                kept@ == old(self).vm_flags@.subrange(0, i as int).filter(keeps(flag@)),
            decreases n - i,
        {
            let ghost prefix = old(self).vm_flags@.subrange(0, i as int);
            let ghost elem = self.vm_flags@[i as int];
            proof {
                reveal(Seq::filter);
                assert(old(self).vm_flags@.subrange(0, i + 1) =~= prefix + seq![elem]);
                Seq::filter_distributes_over_add(prefix, seq![elem], keeps(flag@));
                assert(seq![elem].drop_last() =~= Seq::<String>::empty());
                assert(seq![elem].last() == elem);
                assert(Seq::<String>::empty().filter(keeps(flag@)) =~= Seq::<String>::empty());
                if keeps(flag@)(elem) {
                    assert(seq![elem].filter(keeps(flag@)) =~= seq![elem]);
                } else {
                    assert(seq![elem].filter(keeps(flag@)) =~= Seq::<String>::empty());
                }
            }
            if self.vm_flags[i] == flag_s {
                proof {
                    assert(!keeps(flag@)(elem));
                    assert(prefix.filter(keeps(flag@)) + seq![elem].filter(keeps(flag@))
                        =~= prefix.filter(keeps(flag@)));
                }
            } else {
                kept.push(self.vm_flags[i].clone());
                proof {
                    assert(keeps(flag@)(elem));
                    assert(prefix.filter(keeps(flag@)).push(elem) =~= prefix.filter(keeps(flag@))
                        + seq![elem]);
                }
            }
            i += 1;
        }
        proof {
            assert(old(self).vm_flags@.subrange(0, n as int) =~= old(self).vm_flags@);
        }
        self.vm_flags = kept;
    }

    pub fn set_garbage_collector(&mut self, gc: GarbageCollector)
        ensures
            final(self).max_ram() == old(self).max_ram(),
            final(self).vm_flags() == old(self).vm_flags(),
            final(self).gc() == gc,
    {
        self.garbage_collector = gc;
    }

    /// Every collector the launcher offers, in its fixed order.
    pub fn get_garbage_collectors() -> (r: Vec<GarbageCollector>)
        ensures
            r@ == seq![
                GarbageCollector::Serial,
                GarbageCollector::Parallel,
                GarbageCollector::G1GC,
                GarbageCollector::ZGC,
                GarbageCollector::Shenandoah,
            ],
    {
        let mut collectors: Vec<GarbageCollector> = Vec::new();
        collectors.push(GarbageCollector::Serial);
        collectors.push(GarbageCollector::Parallel);
        collectors.push(GarbageCollector::G1GC);
        collectors.push(GarbageCollector::ZGC);
        collectors.push(GarbageCollector::Shenandoah);
        proof {
            assert(collectors@ =~= seq![
                GarbageCollector::Serial,
                GarbageCollector::Parallel,
                GarbageCollector::G1GC,
                GarbageCollector::ZGC,
                GarbageCollector::Shenandoah,
            ]);
        }
        collectors
    }
}

} // verus!
