//! Bootloader for firmware updates: firmware update reception, flash
//! programming, boot verification and rollback support.
use vstd::prelude::*;

verus! {

/// Bootloader state.
#[derive(Clone, Copy, Debug, PartialEq, Eq, Structural)]
pub enum BootloaderState {
    /// Normal operation (booted into application).
    Normal,
    /// Bootloader active, waiting for firmware.
    Bootloader,
    /// Firmware reception in progress.
    Receiving,
    /// Flash programming in progress.
    Programming,
    /// Verification in progress.
    Verifying,
    /// Boot failed, rollback available.
    RollbackAvailable,
    /// Boot failed, no rollback available.
    BootFailed,
}

/// Bootloader command.
#[derive(Clone, Copy, Debug, PartialEq, Eq, Structural)]
pub enum BootloaderCommand {
    /// Enter bootloader mode.
    EnterBootloader,
    /// Start firmware update.
    StartUpdate,
    /// Cancel firmware update.
    CancelUpdate,
    /// Verify current firmware.
    Verify,
    /// Rollback to previous firmware.
    Rollback,
    /// Boot to application.
    BootApplication,
}

/// Bootloader configuration.
#[derive(Clone, Copy, Debug, PartialEq, Eq, Structural)]
pub struct BootloaderConfig {
    /// Bootloader timeout (ms) before auto-booting to application.
    pub boot_timeout_ms: u32,
    /// Maximum firmware size (bytes).
    pub max_firmware_size: u32,
    /// Enable rollback support.
    pub enable_rollback: bool,
    /// CRC polynomial for verification.
    pub crc_polynomial: u32,
}

/// The default configuration: 5 s auto-boot timeout, 512 KiB of firmware,
/// rollback enabled, CRC-32 polynomial.
pub open spec fn default_bootloader_config() -> BootloaderConfig {
    BootloaderConfig {
        boot_timeout_ms: 5000,
        max_firmware_size: 524288,
        enable_rollback: true,
        crc_polynomial: 0x04C11DB7,
    }
}

impl Default for BootloaderConfig {
    fn default() -> (r: Self)
        ensures
            r == default_bootloader_config(),
    {
        BootloaderConfig {
            boot_timeout_ms: 5000,
            max_firmware_size: 512 * 1024,
            enable_rollback: true,
            crc_polynomial: 0x04C11DB7,
        }
    }
}

/// Bootloader status.
#[derive(Clone, Copy, Debug, PartialEq, Eq, Structural)]
pub struct BootloaderStatus {
    /// Current state.
    pub state: BootloaderState,
    /// Firmware size received (bytes).
    pub firmware_size: u32,
    /// Firmware CRC (if calculated).
    pub firmware_crc: Option<u32>,
    /// Boot attempt count.
    pub boot_attempts: u32,
}

/// Abstract state of a [`Bootloader`].
pub struct BootloaderModel {
    /// Configuration in force.
    pub cfg: BootloaderConfig,
    /// Current state.
    pub state: BootloaderState,
    /// Milliseconds left before auto-boot while in [`BootloaderState::Bootloader`].
    pub boot_timer_ms: u32,
    /// Firmware bytes received in the current update.
    pub firmware_size: u32,
    /// Failed boot attempts.
    pub boot_attempts: u32,
}

/// Bootloader.
pub struct Bootloader {
    cfg: BootloaderConfig,
    state: BootloaderState,
    boot_timer_ms: u32,
    firmware_size: u32,
    boot_attempts: u32,
}

impl View for Bootloader {
    type V = BootloaderModel;

    closed spec fn view(&self) -> BootloaderModel {
        BootloaderModel {
            cfg: self.cfg,
            state: self.state,
            boot_timer_ms: self.boot_timer_ms,
            firmware_size: self.firmware_size,
            boot_attempts: self.boot_attempts,
        }
    }
}

/// The state after command `cmd` in state `m`.
pub open spec fn spec_process_command(m: BootloaderModel, cmd: BootloaderCommand) -> BootloaderModel {
    match cmd {
        BootloaderCommand::EnterBootloader => BootloaderModel {
            state: BootloaderState::Bootloader,
            boot_timer_ms: m.cfg.boot_timeout_ms,
            ..m
        },
        BootloaderCommand::StartUpdate => if m.state == BootloaderState::Bootloader {
            BootloaderModel { state: BootloaderState::Receiving, firmware_size: 0, ..m }
        } else {
            m
        },
        BootloaderCommand::CancelUpdate => if m.state == BootloaderState::Receiving || m.state
            == BootloaderState::Programming {
            BootloaderModel { state: BootloaderState::Bootloader, firmware_size: 0, ..m }
        } else {
            m
        },
        BootloaderCommand::Verify => if m.state == BootloaderState::Programming {
            BootloaderModel { state: BootloaderState::Verifying, ..m }
        } else {
            m
        },
        BootloaderCommand::Rollback => if m.cfg.enable_rollback {
            BootloaderModel { state: BootloaderState::RollbackAvailable, ..m }
        } else {
            m
        },
        BootloaderCommand::BootApplication => BootloaderModel {
            state: BootloaderState::Normal,
            boot_attempts: 0,
            ..m
        },
    }
}

/// The state after `dt_ms` milliseconds in state `m`: only the auto-boot
/// timer of an idle bootloader runs, and reaching zero boots the application.
pub open spec fn spec_update(m: BootloaderModel, dt_ms: u32) -> BootloaderModel {
    if m.state == BootloaderState::Bootloader {
        let t = if m.boot_timer_ms >= dt_ms {
            (m.boot_timer_ms - dt_ms) as u32
        } else {
            0u32
        };
        BootloaderModel {
            boot_timer_ms: t,
            state: if t == 0 {
                BootloaderState::Normal
            } else {
                BootloaderState::Bootloader
            },
            ..m
        }
    } else {
        m
    }
}

impl Bootloader {
    /// Create a new bootloader with default configuration.
    pub fn new() -> (r: Self)
        ensures
            r@.cfg == default_bootloader_config(),
            r@.state == BootloaderState::Bootloader,
            r@.boot_timer_ms == 5000,
            r@.firmware_size == 0,
            r@.boot_attempts == 0,
    {
        Self::with_config(BootloaderConfig::default())
    }

    /// Create a new bootloader with custom configuration.
    pub fn with_config(cfg: BootloaderConfig) -> (r: Self)
        ensures
            r@.cfg == cfg,
            r@.state == BootloaderState::Bootloader,
            r@.boot_timer_ms == cfg.boot_timeout_ms,
            r@.firmware_size == 0,
            r@.boot_attempts == 0,
    {
        Self {
            cfg,
            state: BootloaderState::Bootloader,
            boot_timer_ms: cfg.boot_timeout_ms,
            firmware_size: 0,
            boot_attempts: 0,
        }
    }

    /// Process bootloader command.
    pub fn process_command(&mut self, cmd: BootloaderCommand)
        ensures
            final(self)@ == spec_process_command(old(self)@, cmd),
            cmd == BootloaderCommand::EnterBootloader ==> final(self)@.state
                == BootloaderState::Bootloader && final(self)@.boot_timer_ms == old(
                self,
            )@.cfg.boot_timeout_ms,
            cmd == BootloaderCommand::StartUpdate ==> if old(self)@.state
                == BootloaderState::Bootloader {
                final(self)@.state == BootloaderState::Receiving && final(self)@.firmware_size == 0
            } else {
                final(self)@ == old(self)@
            },
            cmd == BootloaderCommand::CancelUpdate ==> if old(self)@.state
                == BootloaderState::Receiving || old(self)@.state == BootloaderState::Programming {
                final(self)@.state == BootloaderState::Bootloader && final(self)@.firmware_size == 0
            } else {
                final(self)@ == old(self)@
            },
            cmd == BootloaderCommand::Verify ==> if old(self)@.state == BootloaderState::Programming {
                final(self)@.state == BootloaderState::Verifying
            } else {
                final(self)@ == old(self)@
            },
            cmd == BootloaderCommand::Rollback ==> if old(self)@.cfg.enable_rollback {
                final(self)@.state == BootloaderState::RollbackAvailable
            } else {
                final(self)@ == old(self)@
            },
            cmd == BootloaderCommand::BootApplication ==> final(self)@.state
                == BootloaderState::Normal && final(self)@.boot_attempts == 0,
            final(self)@.cfg == old(self)@.cfg,
    {
        match cmd {
            BootloaderCommand::EnterBootloader => {
                self.state = BootloaderState::Bootloader;
                self.boot_timer_ms = self.cfg.boot_timeout_ms;
            },
            BootloaderCommand::StartUpdate => {
                if self.state == BootloaderState::Bootloader {
                    self.state = BootloaderState::Receiving;
                    self.firmware_size = 0;
                }
            },
            BootloaderCommand::CancelUpdate => {
                if self.state == BootloaderState::Receiving || self.state
                    == BootloaderState::Programming {
                    self.state = BootloaderState::Bootloader;
                    self.firmware_size = 0;
                }
            },
            BootloaderCommand::Verify => {
                if self.state == BootloaderState::Programming {
                    self.state = BootloaderState::Verifying;
                }
            },
            BootloaderCommand::Rollback => {
                if self.cfg.enable_rollback {
                    self.state = BootloaderState::RollbackAvailable;
                }
            },
            BootloaderCommand::BootApplication => {
                self.state = BootloaderState::Normal;
                self.boot_attempts = 0;
            },
        }
    }

    /// Advance the bootloader clock by `dt_ms` milliseconds and report the
    /// current status.
    pub fn update(&mut self, dt_ms: u32) -> (r: BootloaderStatus)
        ensures
            final(self)@ == spec_update(old(self)@, dt_ms),
            old(self)@.state != BootloaderState::Bootloader ==> final(self)@ == old(self)@,
            old(self)@.state == BootloaderState::Bootloader ==> if dt_ms >= old(self)@.boot_timer_ms {
                final(self)@.state == BootloaderState::Normal
            } else {
                final(self)@.state == BootloaderState::Bootloader && final(self)@.boot_timer_ms
                    == old(self)@.boot_timer_ms - dt_ms
            },
            r == (BootloaderStatus {
                state: final(self)@.state,
                firmware_size: final(self)@.firmware_size,
                firmware_crc: None,
                boot_attempts: final(self)@.boot_attempts,
            }),
    {
        if self.state == BootloaderState::Bootloader {
            self.boot_timer_ms = self.boot_timer_ms.saturating_sub(dt_ms);
            if self.boot_timer_ms == 0 {
                self.state = BootloaderState::Normal;
            }
        }
        BootloaderStatus {
            state: self.state,
            firmware_size: self.firmware_size,
            firmware_crc: None,
            boot_attempts: self.boot_attempts,
        }
    }

    /// Receive a firmware data chunk. Returns `true` if the chunk was accepted,
    /// `false` when no update is in progress or the firmware would exceed
    /// the configured maximum size.
    pub fn receive_firmware(&mut self, data: &[u8]) -> (r: bool)
        ensures
            r == (old(self)@.state == BootloaderState::Receiving && old(self)@.firmware_size
                + data@.len() <= old(self)@.cfg.max_firmware_size),
            r ==> final(self)@ == (BootloaderModel {
                firmware_size: (old(self)@.firmware_size + data@.len()) as u32,
                ..old(self)@
            }),
            !r ==> final(self)@ == old(self)@,
    {
        if self.state != BootloaderState::Receiving {
            return false;
        }
        if self.firmware_size > self.cfg.max_firmware_size || data.len() > (
        self.cfg.max_firmware_size - self.firmware_size) as usize {
            return false;
        }
        self.firmware_size += data.len() as u32;
        true
    }

    /// Get current bootloader state.
    pub fn state(&self) -> (r: BootloaderState)
        ensures
            r == self@.state,
    {
        self.state
    }

    /// Check if bootloader is active.
    pub fn is_bootloader_active(&self) -> (r: bool)
        ensures
            r == (self@.state != BootloaderState::Normal),
    {
        self.state != BootloaderState::Normal
    }

    /// Check if rollback is available.
    pub fn is_rollback_available(&self) -> (r: bool)
        ensures
            r == (self@.cfg.enable_rollback && self@.boot_attempts > 0),
    {
        self.cfg.enable_rollback && self.boot_attempts > 0
    }

    /// Get the configuration.
    pub fn config(&self) -> (r: BootloaderConfig)
        ensures
            r == self@.cfg,
    {
        self.cfg
    }

    /// Set the configuration.
    pub fn set_config(&mut self, cfg: BootloaderConfig)
        ensures
            final(self)@ == (BootloaderModel { cfg, ..old(self)@ }),
    {
        self.cfg = cfg;
    }

    /// Number of failed boot attempts recorded.
    pub fn boot_attempts(&self) -> (r: u32)
        ensures
            r == self@.boot_attempts,
    {
        self.boot_attempts
    }

    /// Increment boot attempt counter (called on boot failure).
    pub fn increment_boot_attempts(&mut self)
        requires
            old(self)@.boot_attempts < u32::MAX,
        ensures
            final(self)@ == (BootloaderModel {
                boot_attempts: (old(self)@.boot_attempts + 1) as u32,
                ..old(self)@
            }),
    {
        self.boot_attempts += 1;
    }
}

impl Default for Bootloader {
    fn default() -> (r: Self)
        ensures
            r@.cfg == default_bootloader_config(),
            r@.state == BootloaderState::Bootloader,
            r@.boot_timer_ms == 5000,
            r@.firmware_size == 0,
            r@.boot_attempts == 0,
    {
        Self::new()
    }
}

/// Total of the step lengths `ds`.
pub open spec fn total_ms(ds: Seq<u32>) -> int
    decreases ds.len(),
{
    if ds.len() == 0 {
        0
    } else {
        total_ms(ds.drop_last()) + ds.last()
    }
}

/// The state after clock steps of lengths `ds`, in order.
pub open spec fn spec_update_steps(m: BootloaderModel, ds: Seq<u32>) -> BootloaderModel
    decreases ds.len(),
{
    if ds.len() == 0 {
        m
    } else {
        spec_update(spec_update_steps(m, ds.drop_last()), ds.last())
    }
}

/// An idle bootloader boots the application on its own: from
/// [`BootloaderState::Bootloader`] with `T` ms left on its timer, after at
/// least one clock step (of any lengths) it is in
/// [`BootloaderState::Normal`] exactly when the steps add up to `T` or more,
/// and otherwise still waits with `T` minus the elapsed time left.
pub proof fn lemma_auto_boot(m: BootloaderModel, ds: Seq<u32>)
    requires
        m.state == BootloaderState::Bootloader,
        ds.len() > 0,
    ensures
        spec_update_steps(m, ds).state == (if total_ms(ds) >= m.boot_timer_ms {
            BootloaderState::Normal
        } else {
            BootloaderState::Bootloader
        }),
        spec_update_steps(m, ds).state == BootloaderState::Bootloader ==> spec_update_steps(
            m,
            ds,
        ).boot_timer_ms == m.boot_timer_ms - total_ms(ds),
        spec_update_steps(m, ds).cfg == m.cfg,
        spec_update_steps(m, ds).boot_attempts == m.boot_attempts,
        spec_update_steps(m, ds).firmware_size == m.firmware_size,
    decreases ds.len(),
{
    let p = ds.drop_last();
    lemma_total_nonneg(p);
    if p.len() > 0 {
        lemma_auto_boot(m, p);
    } else {
        assert(spec_update_steps(m, p) == m);
    }
    let prev = spec_update_steps(m, p);
    assert(spec_update_steps(m, ds) == spec_update(prev, ds.last()));
    assert(total_ms(ds) == total_ms(p) + ds.last());
}

proof fn lemma_total_nonneg(ds: Seq<u32>)
    ensures
        total_ms(ds) >= 0,
    decreases ds.len(),
{
    if ds.len() > 0 {
        lemma_total_nonneg(ds.drop_last());
    }
}

/// Entering the bootloader re-arms the auto-boot timer: from any state,
/// after an `EnterBootloader` command and at least one clock step, the
/// bootloader is back in the application exactly when the steps add up to
/// the configured `boot_timeout_ms`, and otherwise waits with the rest of
/// that timeout left.
pub proof fn lemma_enter_rearms_timer(m: BootloaderModel, ds: Seq<u32>)
    requires
        ds.len() > 0,
    ensures
        ({
            let entered = spec_process_command(m, BootloaderCommand::EnterBootloader);
            let after = spec_update_steps(entered, ds);
            &&& entered.state == BootloaderState::Bootloader
            &&& entered.boot_timer_ms == m.cfg.boot_timeout_ms
            &&& after.state == (if total_ms(ds) >= m.cfg.boot_timeout_ms {
                BootloaderState::Normal
            } else {
                BootloaderState::Bootloader
            })
            &&& after.state == BootloaderState::Bootloader ==> after.boot_timer_ms
                == m.cfg.boot_timeout_ms - total_ms(ds)
        }),
{
    let entered = spec_process_command(m, BootloaderCommand::EnterBootloader);
    lemma_auto_boot(entered, ds);
}

/// A call on a [`Bootloader`], for stating what a history of calls does.
pub enum BootloaderCall {
    /// `process_command(cmd)`.
    Command(BootloaderCommand),
    /// `update(dt_ms)`.
    Update(u32),
    /// `receive_firmware` with a chunk of this many bytes.
    ReceiveFirmware(usize),
    /// `increment_boot_attempts()`.
    IncrementBootAttempts,
    /// `set_config(cfg)`.
    SetConfig(BootloaderConfig),
}

/// The state after one call, as each method's contract states it.
pub open spec fn spec_call(m: BootloaderModel, c: BootloaderCall) -> BootloaderModel {
    match c {
        BootloaderCall::Command(cmd) => spec_process_command(m, cmd),
        BootloaderCall::Update(dt) => spec_update(m, dt),
        BootloaderCall::ReceiveFirmware(n) => if m.state == BootloaderState::Receiving
            && m.firmware_size + n <= m.cfg.max_firmware_size {
            BootloaderModel { firmware_size: (m.firmware_size + n) as u32, ..m }
        } else {
            m
        },
        BootloaderCall::IncrementBootAttempts => BootloaderModel {
            boot_attempts: (m.boot_attempts + 1) as u32,
            ..m
        },
        BootloaderCall::SetConfig(cfg) => BootloaderModel { cfg, ..m },
    }
}

/// The state after the calls `cs`, in order.
pub open spec fn spec_run(m: BootloaderModel, cs: Seq<BootloaderCall>) -> BootloaderModel
    decreases cs.len(),
{
    if cs.len() == 0 {
        m
    } else {
        spec_call(spec_run(m, cs.drop_last()), cs.last())
    }
}

/// How many `increment_boot_attempts` calls `cs` holds.
pub open spec fn increments(cs: Seq<BootloaderCall>) -> nat
    decreases cs.len(),
{
    if cs.len() == 0 {
        0
    } else {
        increments(cs.drop_last()) + if cs.last() is IncrementBootAttempts {
            1nat
        } else {
            0nat
        }
    }
}

/// How many `increment_boot_attempts` calls `cs` holds after its last
/// `BootApplication` command (all of them when it has none).
pub open spec fn increments_since_boot(cs: Seq<BootloaderCall>) -> nat
    decreases cs.len(),
{
    if cs.len() == 0 {
        0
    } else if cs.last() matches BootloaderCall::Command(BootloaderCommand::BootApplication) {
        0
    } else {
        increments_since_boot(cs.drop_last()) + if cs.last() is IncrementBootAttempts {
            1nat
        } else {
            0nat
        }
    }
}

/// Rollback is offered exactly when it is enabled and boots have failed
/// since the application last booted: from a bootloader with no failed
/// attempts (as `new` and `with_config` make it), after any history of
/// calls the attempt count is the number of `increment_boot_attempts` calls
/// since the last `BootApplication` command.
pub proof fn lemma_rollback_history(m: BootloaderModel, cs: Seq<BootloaderCall>)
    requires
        m.boot_attempts == 0,
        increments(cs) <= u32::MAX,
    ensures
        spec_run(m, cs).boot_attempts == increments_since_boot(cs),
        (spec_run(m, cs).cfg.enable_rollback && spec_run(m, cs).boot_attempts > 0) == (spec_run(
            m,
            cs,
        ).cfg.enable_rollback && increments_since_boot(cs) > 0),
    decreases cs.len(),
{
    if cs.len() > 0 {
        let p = cs.drop_last();
        lemma_since_le_increments(p);
        lemma_rollback_history(m, p);
    }
}

proof fn lemma_since_le_increments(cs: Seq<BootloaderCall>)
    ensures
        increments_since_boot(cs) <= increments(cs),
    decreases cs.len(),
{
    if cs.len() > 0 {
        lemma_since_le_increments(cs.drop_last());
    }
}

} // verus!
