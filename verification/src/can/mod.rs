//! CAN bus management: reception statistics and dashboard protocols.
use vstd::prelude::*;
use crate::hal::{CanBus, log_since, frames_received};

pub mod dash;
pub mod obd2;

verus! {

/// CAN bus manager.
pub struct CanManager {
    enabled: bool,
    tx_count: u32,
    rx_count: u32,
}

/// Abstract state of a [`CanManager`]: (enabled, tx count, rx count).
pub struct CanManagerModel {
    /// CAN communication enabled.
    pub enabled: bool,
    /// Frames transmitted.
    pub tx_count: u32,
    /// Frames received.
    pub rx_count: u32,
}

impl View for CanManager {
    type V = CanManagerModel;

    closed spec fn view(&self) -> CanManagerModel {
        CanManagerModel { enabled: self.enabled, tx_count: self.tx_count, rx_count: self.rx_count }
    }
}

impl CanManager {
    /// Create a new CAN manager (disabled, no traffic counted).
    pub fn new() -> (r: Self)
        ensures
            !r@.enabled,
            r@.tx_count == 0,
            r@.rx_count == 0,
    {
        Self { enabled: false, tx_count: 0, rx_count: 0 }
    }

    /// Enable CAN communication.
    pub fn enable(&mut self)
        ensures
            final(self)@ == (CanManagerModel { enabled: true, ..old(self)@ }),
    {
        self.enabled = true;
    }

    /// Disable CAN communication.
    pub fn disable(&mut self)
        ensures
            final(self)@ == (CanManagerModel { enabled: false, ..old(self)@ }),
    {
        self.enabled = false;
    }

    /// Check if CAN is enabled.
    pub fn is_enabled(&self) -> (r: bool)
        ensures
            r == self@.enabled,
    {
        self.enabled
    }

    /// Drain the receive FIFO until it reports empty, counting every frame
    /// received; the counter saturates at `u32::MAX`.
    pub fn process_rx<CB: CanBus>(&mut self, can: &mut CB)
        ensures
            final(self)@.enabled == old(self)@.enabled,
            final(self)@.tx_count == old(self)@.tx_count,
            final(can).rx_log().len() > old(can).rx_log().len(),
            final(can).rx_log().subrange(0, old(can).rx_log().len() as int) == old(can).rx_log(),
            ({
                let got = log_since(old(can).rx_log(), final(can).rx_log());
                &&& got.last() is None
                &&& forall|i: int| 0 <= i < got.len() - 1 ==> #[trigger] got[i] is Some
                &&& final(self)@.rx_count == if old(self)@.rx_count + frames_received(got)
                    <= u32::MAX {
                    old(self)@.rx_count + frames_received(got)
                } else {
                    u32::MAX as int
                }
            }),
            final(can).tx_log() == old(can).tx_log(),
    {
        let ghost start = can.rx_log();
        let mut done = false;
        while !done
            invariant
                self.enabled == old(self).enabled,
                self.tx_count == old(self).tx_count,
                start == old(can).rx_log(),
                can.rx_log().len() >= start.len(),
                can.rx_log().subrange(0, start.len() as int) == start,
                self.rx_count == if old(self).rx_count + frames_received(log_since(start, can.rx_log()))
                    <= u32::MAX {
                    old(self).rx_count + frames_received(log_since(start, can.rx_log()))
                } else {
                    u32::MAX as int
                },
                forall|i: int|
                    0 <= i < log_since(start, can.rx_log()).len() - 1
                        ==> #[trigger] log_since(start, can.rx_log())[i] is Some,
                !done ==> forall|i: int|
                    0 <= i < log_since(start, can.rx_log()).len()
                        ==> #[trigger] log_since(start, can.rx_log())[i] is Some,
                done ==> log_since(start, can.rx_log()).len() > 0 && log_since(
                    start,
                    can.rx_log(),
                ).last() is None,
                can.tx_log() == old(can).tx_log(),
            decreases (if done { 0int } else { 1int }), can.rx_depth(),
        {
            let ghost before = can.rx_log();
            let got = can.receive();
            proof {
                assert(log_since(start, can.rx_log()) =~= log_since(start, before).push(got));
                assert(log_since(start, can.rx_log()).drop_last() =~= log_since(start, before));
                assert(can.rx_log().subrange(0, start.len() as int) =~= start);
            }
            match got {
                Some(_frame) => {
                    if self.rx_count < u32::MAX {
                        self.rx_count += 1;
                    }
                },
                None => {
                    done = true;
                },
            }
        }
    }

    /// Get transmission statistics.
    pub fn tx_count(&self) -> (r: u32)
        ensures
            r == self@.tx_count,
    {
        self.tx_count
    }

    /// Get reception statistics.
    pub fn rx_count(&self) -> (r: u32)
        ensures
            r == self@.rx_count,
    {
        self.rx_count
    }
}

impl Default for CanManager {
    fn default() -> (r: Self)
        ensures
            !r@.enabled,
            r@.tx_count == 0,
            r@.rx_count == 0,
    {
        Self::new()
    }
}

} // verus!
