//! The session of one device: what it remembers between dispatches, and
//! what it decides at each step of its loop.
//!
//! The caller runs the loop. It asks the session whether the best score is to
//! be read again, hands it the contents of the sink, takes the next dispatch
//! from it, runs that on the device, hands back what the device answered, and
//! shows the status that the session computes.

use rand::Rng;
use vstd::prelude::*;
use vstd::utf8::encode_utf8;

use crate::address::{leading_ones, trailing_ones};
use crate::config::{is_hex_prefix, Config};
use crate::errors::ErrorKind;
use crate::hit::{
    is_verdict_of_report, law_valid_score_is_bounded, verify, Hit, MismatchRejected, Predicate,
};
use crate::kernel::{build_message, filter_passes, message_bytes, BEST_OFFSET};
use crate::record::{
    best_of_hits, law_best_score_of_written, lemma_best_of_hits_pushed, sink_bytes,
};
use crate::sink::{best_score, best_score_of, ends_with_lines, law_best_score_grows};
use crate::WORK_SIZE;

verus! {

/// The best score is read again from the sink when this many milliseconds
/// have passed since it was last read.
pub const REFRESH_MS: u64 = 5000;

/// The status is shown again when this many milliseconds have passed since
/// it was last shown.
pub const STATUS_MS: u64 = 1000;

/// Rows of the terminal that belong to one device.
pub const ROWS_PER_DEVICE: u64 = 6;

/// Rows that are set aside for each device when the screen is cleared.
pub const RESERVED_ROWS_PER_DEVICE: u64 = 5;

/// The width of the rule under a status where the terminal does not tell its width.
pub const DEFAULT_WIDTH: u16 = 80;

/// The greatest width of the rule under a status.
pub const MAX_RULE_WIDTH: u16 = 100;

/// The byte that carries a best score to the device: the score itself, or
/// 255 where it is more than a byte holds.
pub open spec fn filter_byte(best: nat) -> u8 {
    if best > 255 {
        255
    } else {
        best as u8
    }
}

/// `rand::thread_rng().gen::<u32>()`: a number from the thread's generator.
/// Nothing is known of it.
#[verifier::external_body]
pub(crate) fn draw_nonce() -> (nonce: u32) {
    rand::thread_rng().gen::<u32>()
}

/// What one device's session remembers.
#[derive(Clone, Debug)]
pub struct Session {
    /// The address that will call CREATE2.
    pub deployer: [u8; 20],
    /// The hash of the code that it deploys.
    pub init_code_hash: [u8; 32],
    /// What addresses are searched for.
    pub predicate: Predicate,
    pub platform_id: u32,
    pub device_id: u32,
    /// Number of salts that one dispatch tries.
    pub work_size: u32,
    /// The message for the device; its last byte follows `best`.
    pub message: [u8; 55],
    /// The best score of the sink when it was last read.
    pub best: u32,
    /// The base nonce of the dispatch that was handed out last.
    pub nonce: u32,
    /// When the session was opened, in milliseconds.
    pub started_ms: u64,
    /// When the sink was last read.
    pub refreshed_ms: u64,
    /// When the status was last shown.
    pub reported_ms: u64,
    /// Number of salts tried so far.
    pub hashes: u64,
    /// Number of salts that had been tried when the status was last shown.
    pub hashes_reported: u64,
}

/// What the device is to run next.
#[derive(Clone, Copy, Debug)]
pub struct Dispatch {
    pub nonce: u32,
    pub message: [u8; 55],
    pub work_size: u32,
}

/// What came of a dispatch.
#[derive(Clone, Copy, Debug, PartialEq, Eq)]
pub enum Harvest {
    /// The device reported nothing.
    Nothing,
    /// The device reported a salt, and it verified.
    Found(Hit),
    /// The device reported a salt, and it did not verify.
    Rejected(MismatchRejected),
}

/// What the status of a device shows.
#[derive(Clone, Copy, Debug, PartialEq, Eq)]
pub struct Status {
    pub platform_id: u32,
    pub device_id: u32,
    /// The row where the cursor is left, below the rows of all devices.
    pub park_row: u64,
    /// Milliseconds since the session was opened.
    pub elapsed_ms: u64,
    pub work_size: u32,
    /// Salts tried in a second, over the time since the status was last shown.
    pub hashes_per_second: u64,
    pub total_hashes: u64,
    pub nonce: u32,
    pub best: u32,
    /// The width of the rule under the status.
    pub rule_width: u16,
}

/// The milliseconds from `earlier` to `later`, or zero where `later` is not later.
pub open spec fn elapsed(earlier: u64, later: u64) -> nat {
    if later >= earlier {
        (later - earlier) as nat
    } else {
        0
    }
}

/// Salts in a second, where `hashes` were tried in `millis` milliseconds.
pub open spec fn rate(hashes: nat, millis: nat) -> nat {
    if millis == 0 {
        0
    } else {
        hashes * 1000 / millis
    }
}

/// The width of the rule under a status: that of the terminal, or eighty
/// where it is not known, and a hundred at most.
pub open spec fn rule_width_of(terminal_width: Option<u16>) -> u16 {
    let width = match terminal_width {
        Some(width) => width,
        None => DEFAULT_WIDTH,
    };
    if width > MAX_RULE_WIDTH {
        MAX_RULE_WIDTH
    } else {
        width
    }
}

/// The row below the rows of all devices.
pub open spec fn park_row_of(total_devices: u32) -> nat {
    (total_devices * ROWS_PER_DEVICE + 1) as nat
}

/// Rows that are set aside when the screen is cleared for so many devices.
pub fn reserved_rows(total_devices: u32) -> (rows: u64)
    ensures
        rows == RESERVED_ROWS_PER_DEVICE * total_devices,
{
    RESERVED_ROWS_PER_DEVICE * (total_devices as u64)
}

/// The byte that carries a best score to the device.
pub fn filter_byte_of(best: u32) -> (byte: u8)
    ensures
        byte == filter_byte(best as nat),
{
    if best > 255 {
        255
    } else {
        best as u8
    }
}

impl Session {
    /// The message is the one that the search and the best score give.
    pub open spec fn wf(&self) -> bool {
        self.message@ == message_bytes(
            self.deployer@,
            self.init_code_hash@,
            self.predicate.device_min_leading(),
            self.predicate.device_min_trailing(),
            filter_byte(self.best as nat),
        )
    }

    /// Opens the session of the device that `config` names, at the time
    /// `now_ms`, with the best score that the contents of the sink record.
    /// It fails where the configuration asks for a prefix that cannot be one.
    pub fn open(config: &Config, sink: &[u8], now_ms: u64) -> (opened: Result<Session, ErrorKind>)
        ensures
            match opened {
                Ok(session) => {
                    &&& config.searches_for(session.predicate)
                    &&& config.asks_for_prefix() ==> is_hex_prefix(
                        encode_utf8(config.starts_with@),
                    )
                    &&& session.wf()
                    &&& session.deployer == config.factory_address
                    &&& session.init_code_hash == config.init_code_hash
                    &&& session.platform_id == config.platform_id
                    &&& session.device_id == config.gpu_device
                    &&& session.work_size == WORK_SIZE
                    &&& session.best == best_score_of(sink@)
                    &&& session.nonce == 0
                    &&& session.started_ms == now_ms
                    &&& session.refreshed_ms == now_ms
                    &&& session.reported_ms == now_ms
                    &&& session.hashes == 0
                    &&& session.hashes_reported == 0
                },
                Err(kind) => {
                    &&& kind == ErrorKind::ConfigInvalid
                    &&& config.asks_for_prefix()
                    &&& !is_hex_prefix(encode_utf8(config.starts_with@))
                },
            },
    {
        let predicate = match config.predicate() {
            Ok(predicate) => predicate,
            Err(kind) => {
                return Err(kind);
            },
        };
        let best: u32 = best_score(sink);
        let minima = predicate.device_minima();
        let message = build_message(
            &config.factory_address,
            &config.init_code_hash,
            minima.0,
            minima.1,
            filter_byte_of(best),
        );
        Ok(
            Session {
                deployer: config.factory_address,
                init_code_hash: config.init_code_hash,
                predicate,
                platform_id: config.platform_id,
                device_id: config.gpu_device,
                work_size: WORK_SIZE,
                message,
                best,
                nonce: 0,
                started_ms: now_ms,
                refreshed_ms: now_ms,
                reported_ms: now_ms,
                hashes: 0,
                hashes_reported: 0,
            },
        )
    }

    /// The milliseconds that the session has run at the time `now_ms`.
    pub fn running_ms(&self, now_ms: u64) -> (millis: u64)
        ensures
            millis == elapsed(self.started_ms, now_ms),
    {
        if now_ms >= self.started_ms {
            now_ms - self.started_ms
        } else {
            0
        }
    }

    /// Whether the best score is to be read from the sink again.
    pub fn refresh_due(&self, now_ms: u64) -> (due: bool)
        ensures
            due == (elapsed(self.refreshed_ms, now_ms) >= REFRESH_MS),
    {
        now_ms >= self.refreshed_ms && now_ms - self.refreshed_ms >= REFRESH_MS
    }

    /// Takes the best score from the contents of the sink and writes it into
    /// the last byte of the message. No other byte of the message changes.
    pub fn refresh(&mut self, sink: &[u8], now_ms: u64)
        ensures
            final(self).best == best_score_of(sink@),
            final(self).message@ == old(self).message@.update(
                BEST_OFFSET as int,
                filter_byte(best_score_of(sink@)),
            ),
            final(self).refreshed_ms == now_ms,
            *final(self) == (Session {
                best: final(self).best,
                message: final(self).message,
                refreshed_ms: now_ms,
                ..*old(self)
            }),
            old(self).wf() ==> final(self).wf(),
    {
        let best: u32 = best_score(sink);
        self.best = best;
        self.message[BEST_OFFSET] = filter_byte_of(best);
        self.refreshed_ms = now_ms;
        proof {
            if old(self).wf() {
                assert(self.message@ =~= message_bytes(
                    self.deployer@,
                    self.init_code_hash@,
                    self.predicate.device_min_leading(),
                    self.predicate.device_min_trailing(),
                    filter_byte(self.best as nat),
                ));
            }
        }
    }

    /// Hands out the dispatch with the base nonce `nonce`.
    pub fn begin_dispatch(&mut self, nonce: u32) -> (dispatch: Dispatch)
        ensures
            *final(self) == (Session { nonce, ..*old(self) }),
            dispatch.nonce == nonce,
            dispatch.message == old(self).message,
            dispatch.work_size == old(self).work_size,
    {
        self.nonce = nonce;
        Dispatch { nonce, message: self.message, work_size: self.work_size }
    }

    /// Hands out the next dispatch, with a base nonce drawn at random.
    pub fn next_dispatch(&mut self) -> (dispatch: Dispatch)
        ensures
            *final(self) == (Session { nonce: dispatch.nonce, ..*old(self) }),
            dispatch.message == old(self).message,
            dispatch.work_size == old(self).work_size,
    {
        let nonce: u32 = draw_nonce();
        self.begin_dispatch(nonce)
    }

    /// Takes what the device answered to a dispatch. The salts of the
    /// dispatch are counted; a reported salt is verified against the search
    /// and the best score that the dispatch carried.
    pub fn harvest(
        &mut self,
        has_solution: u32,
        solutions: &[u64; 3],
        digest_output: &[u8],
        unix_seconds: u64,
    ) -> (harvest: Harvest)
        ensures
            *final(self) == (Session {
                hashes: old(self).hashes.saturating_add(old(self).work_size as u64),
                ..*old(self)
            }),
            has_solution == 0 ==> harvest == Harvest::Nothing,
            has_solution != 0 ==> match harvest {
                Harvest::Nothing => false,
                Harvest::Found(hit) => is_verdict_of_report(
                    Ok(hit),
                    old(self).deployer@,
                    old(self).init_code_hash@,
                    old(self).predicate,
                    old(self).best as nat,
                    solutions@[0],
                    solutions@[1],
                    solutions@[2],
                    digest_output@,
                    old(self).platform_id,
                    old(self).device_id,
                    unix_seconds,
                ),
                Harvest::Rejected(reason) => is_verdict_of_report(
                    Err(reason),
                    old(self).deployer@,
                    old(self).init_code_hash@,
                    old(self).predicate,
                    old(self).best as nat,
                    solutions@[0],
                    solutions@[1],
                    solutions@[2],
                    digest_output@,
                    old(self).platform_id,
                    old(self).device_id,
                    unix_seconds,
                ),
            },
    {
        self.hashes = self.hashes.saturating_add(self.work_size as u64);
        if has_solution == 0 {
            return Harvest::Nothing;
        }
        let verdict = verify(
            &self.deployer,
            &self.init_code_hash,
            &self.predicate,
            self.best,
            solutions[0],
            solutions[1],
            solutions[2],
            digest_output,
            self.platform_id,
            self.device_id,
            unix_seconds,
        );
        match verdict {
            Ok(hit) => Harvest::Found(hit),
            Err(reason) => Harvest::Rejected(reason),
        }
    }

    /// Whether the status is to be shown again.
    pub open spec fn status_due(&self, now_ms: u64) -> bool {
        elapsed(self.reported_ms, now_ms) >= STATUS_MS
    }

    /// Computes the status at the time `now_ms`, where a second has passed
    /// since it was last shown, and remembers that it is shown now.
    pub fn status(&mut self, now_ms: u64, total_devices: u32, terminal_width: Option<u16>) -> (status:
        Option<Status>)
        ensures
            !old(self).status_due(now_ms) ==> status is None && *final(self) == *old(self),
            old(self).status_due(now_ms) ==> {
                &&& status matches Some(status)
                &&& *final(self) == (Session {
                    reported_ms: now_ms,
                    hashes_reported: old(self).hashes,
                    ..*old(self)
                })
                &&& status.platform_id == old(self).platform_id
                &&& status.device_id == old(self).device_id
                &&& status.park_row == park_row_of(total_devices)
                &&& status.elapsed_ms == elapsed(old(self).started_ms, now_ms)
                &&& status.work_size == old(self).work_size
                &&& status.hashes_per_second == rate(
                    elapsed(old(self).hashes_reported, old(self).hashes),
                    elapsed(old(self).reported_ms, now_ms),
                )
                &&& status.total_hashes == old(self).hashes
                &&& status.nonce == old(self).nonce
                &&& status.best == old(self).best
                &&& status.rule_width == rule_width_of(terminal_width)
            },
    {
        if !(now_ms >= self.reported_ms && now_ms - self.reported_ms >= STATUS_MS) {
            return None;
        }
        let since_ms: u64 = now_ms - self.reported_ms;
        let elapsed_ms: u64 = self.running_ms(now_ms);
        let tried: u64 = if self.hashes >= self.hashes_reported {
            self.hashes - self.hashes_reported
        } else {
            0
        };
        let per_second: u128 = (tried as u128 * 1000) / (since_ms as u128);
        assert(per_second <= tried) by (nonlinear_arith)
            requires
                per_second == (tried as int * 1000) / (since_ms as int),
                since_ms >= 1000,
        ;
        let width: u16 = match terminal_width {
            Some(width) => width,
            None => DEFAULT_WIDTH,
        };
        let status = Status {
            platform_id: self.platform_id,
            device_id: self.device_id,
            park_row: (total_devices as u64) * ROWS_PER_DEVICE + 1,
            elapsed_ms,
            work_size: self.work_size,
            hashes_per_second: per_second as u64,
            total_hashes: self.hashes,
            nonce: self.nonce,
            best: self.best,
            rule_width: if width > MAX_RULE_WIDTH {
                MAX_RULE_WIDTH
            } else {
                width
            },
        };
        self.reported_ms = now_ms;
        self.hashes_reported = self.hashes;
        Some(status)
    }
}

/// The byte that a session writes for the best score never falls from one
/// reading of the sink to a later one, as long as the sink has only been
/// appended to after whole lines.
pub proof fn law_filter_byte_grows(contents: Seq<u8>, more: Seq<u8>)
    requires
        ends_with_lines(contents),
    ensures
        filter_byte(best_score_of(contents)) <= filter_byte(best_score_of(contents + more)),
{
    law_best_score_grows(contents, more);
}

/// Every one of the finds is valid for the search.
pub open spec fn all_valid(hits: Seq<Hit>, deployer: Seq<u8>, init_code_hash: Seq<u8>) -> bool {
    forall|i: int| 0 <= i < hits.len() ==> (#[trigger] hits[i]).valid_for(deployer, init_code_hash)
}

/// The greatest score among valid finds is eighty at most.
pub proof fn lemma_best_of_valid_hits(hits: Seq<Hit>, deployer: Seq<u8>, init_code_hash: Seq<u8>)
    requires
        all_valid(hits, deployer, init_code_hash),
    ensures
        best_of_hits(hits) <= 80,
    decreases hits.len(),
{
    if hits.len() > 0 {
        law_valid_score_is_bounded(hits[0], deployer, init_code_hash);
        let rest = hits.drop_first();
        assert forall|i: int| 0 <= i < rest.len() implies (#[trigger] rest[i]).valid_for(
            deployer,
            init_code_hash,
        ) by {
            assert(rest[i] == hits[i + 1]);
        }
        lemma_best_of_valid_hits(rest, deployer, init_code_hash);
    }
}

/// While a sink holds the verified finds of a search and nothing else, the
/// byte that a session writes for its best score never falls when a find is
/// appended.
pub proof fn law_filter_byte_grows_with_finds(
    hits: Seq<Hit>,
    hit: Hit,
    deployer: Seq<u8>,
    init_code_hash: Seq<u8>,
)
    requires
        all_valid(hits, deployer, init_code_hash),
        hit.valid_for(deployer, init_code_hash),
    ensures
        filter_byte(best_score_of(sink_bytes(hits))) <= filter_byte(
            best_score_of(sink_bytes(hits.push(hit))),
        ),
        filter_byte(best_score_of(sink_bytes(hits.push(hit)))) == best_of_hits(hits.push(hit)),
{
    law_best_score_of_written(hits);
    law_best_score_of_written(hits.push(hit));
    lemma_best_of_hits_pushed(hits, hit);
    lemma_best_of_valid_hits(hits, deployer, init_code_hash);
    law_valid_score_is_bounded(hit, deployer, init_code_hash);
}

/// The device withholds nothing that the host would record: an address that
/// satisfies the predicate for a best score passes the filter of the message
/// that carries that score.
pub proof fn law_device_filter_is_complete(predicate: Predicate, address: Seq<u8>, best: u32)
    requires
        predicate.satisfied_by(address, best as nat),
    ensures
        filter_passes(
            predicate.device_min_leading(),
            predicate.device_min_trailing(),
            filter_byte(best as nat),
            leading_ones(address),
            trailing_ones(address),
        ),
{
}

} // verus!
