use vstd::prelude::*;

use crate::CAddressHandle;
use crate::CPlayerHandle;

verus! {

/// Default size of the engine's prediction window.
pub const DEFAULT_MAX_PREDICTION: usize = 8;

/// Default simulation rate in frames per second.
pub const DEFAULT_FPS: usize = 60;

/// Default number of players in a session.
pub const DEFAULT_NUM_PLAYERS: usize = 2;

/// Default local port for sessions that bind a native socket.
pub const DEFAULT_HOST_PORT: u16 = 30000;

/// Default number of frames local input is delayed.
pub const DEFAULT_INPUT_DELAY: usize = 2;

/// Resimulation depth the engine uses for its determinism check; the engine
/// refuses a sync-test session whose prediction window is not larger.
pub const SYNCTEST_CHECK_DISTANCE: usize = 2;

/// The single staged configuration record. Setters mutate it field by field;
/// a successful build consumes it and resets it to the defaults.
#[derive(Clone, Debug)]
pub struct CSessionBuilderSettings {
    /// Size of the engine's prediction window.
    pub max_prediction: usize,
    /// Simulation rate in frames per second; must be nonzero to build.
    pub fps: usize,
    /// Number of players; player slots run `0 .. num_players`.
    pub num_players: usize,
    /// Whether the engine saves only confirmed frames.
    pub sparse_saving: bool,
    /// Ordered list of local player slots.
    pub local_player_handles: Vec<CPlayerHandle>,
    /// Ordered list of remote player slots with the endpoint each lives at.
    pub remote_player_handles: Vec<(CPlayerHandle, CAddressHandle)>,
    /// Local port for sessions that bind a native socket.
    pub host_port: u16,
    /// Number of frames local input is delayed.
    pub input_delay: usize,
}

/// True of a settings record holding exactly the default values.
pub open spec fn is_default_settings(s: CSessionBuilderSettings) -> bool {
    &&& s.max_prediction == DEFAULT_MAX_PREDICTION
    &&& s.fps == DEFAULT_FPS
    &&& s.num_players == DEFAULT_NUM_PLAYERS
    &&& !s.sparse_saving
    &&& s.local_player_handles@.len() == 0
    &&& s.remote_player_handles@.len() == 0
    &&& s.host_port == DEFAULT_HOST_PORT
    &&& s.input_delay == DEFAULT_INPUT_DELAY
}

/// All staged player slots in registration order: locals first, then remotes.
pub open spec fn staged_handles(s: CSessionBuilderSettings) -> Seq<CPlayerHandle> {
    s.local_player_handles@ + s.remote_player_handles@.map_values(
        |p: (CPlayerHandle, CAddressHandle)| p.0,
    )
}

/// The player registration is acceptable to the engine: at least one player,
/// no slot registered twice, and every slot within `0 .. num_players`.
pub open spec fn valid_player_setup(s: CSessionBuilderSettings) -> bool {
    &&& s.num_players >= 1
    &&& forall|i: int, j: int|
        0 <= i < j < staged_handles(s).len() ==> staged_handles(s)[i] != staged_handles(s)[j]
    &&& forall|i: int|
        0 <= i < staged_handles(s).len() ==> #[trigger] staged_handles(s)[i] < s.num_players
}

/// Every player slot `0 .. num_players` has been registered.
pub open spec fn all_players_staged(s: CSessionBuilderSettings) -> bool {
    forall|p: CPlayerHandle| p < s.num_players ==> staged_handles(s).contains(p)
}

/// The engine accepts these settings for a sync-test session: a positive
/// frame rate, an acceptable player registration, a prediction window larger
/// than the determinism-check depth, and no sparse saving.
pub open spec fn valid_synctest_settings(s: CSessionBuilderSettings) -> bool {
    &&& s.fps >= 1
    &&& valid_player_setup(s)
    &&& s.max_prediction > SYNCTEST_CHECK_DISTANCE
    &&& !s.sparse_saving
}

/// The engine accepts these settings for a peer-to-peer session: a positive
/// frame rate, an acceptable player registration, and every slot filled.
pub open spec fn valid_p2p_settings(s: CSessionBuilderSettings) -> bool {
    &&& s.fps >= 1
    &&& valid_player_setup(s)
    &&& all_players_staged(s)
}

impl CSessionBuilderSettings {
    /// Builds the default settings record.
    pub fn new() -> (s: CSessionBuilderSettings)
        ensures
            is_default_settings(s),
    {
        CSessionBuilderSettings {
            max_prediction: DEFAULT_MAX_PREDICTION,
            fps: DEFAULT_FPS,
            num_players: DEFAULT_NUM_PLAYERS,
            sparse_saving: false,
            local_player_handles: Vec::new(),
            remote_player_handles: Vec::new(),
            host_port: DEFAULT_HOST_PORT,
            input_delay: DEFAULT_INPUT_DELAY,
        }
    }

    /// Collects the staged player slots in registration order.
    fn staged(&self) -> (v: Vec<CPlayerHandle>)
        ensures
            v@ == staged_handles(*self),
    {
        let mut v: Vec<CPlayerHandle> = Vec::new();
        let mut i: usize = 0;
        while i < self.local_player_handles.len()
            invariant
                i <= self.local_player_handles@.len(),
                v@ == self.local_player_handles@.take(i as int),
            decreases self.local_player_handles@.len() - i,
        {
            v.push(self.local_player_handles[i]);
            proof {
                assert(self.local_player_handles@.take(i as int).push(
                    self.local_player_handles@[i as int],
                ) =~= self.local_player_handles@.take(i as int + 1));
            }
            i += 1;
        }
        proof {
            assert(self.local_player_handles@.take(self.local_player_handles@.len() as int)
                =~= self.local_player_handles@);
        }
        let ghost mapped = self.remote_player_handles@.map_values(
            |p: (CPlayerHandle, CAddressHandle)| p.0,
        );
        let mut j: usize = 0;
        while j < self.remote_player_handles.len()
            invariant
                j <= self.remote_player_handles@.len(),
                mapped == self.remote_player_handles@.map_values(
                    |p: (CPlayerHandle, CAddressHandle)| p.0,
                ),
                v@ == self.local_player_handles@ + mapped.take(j as int),
            decreases self.remote_player_handles@.len() - j,
        {
            v.push(self.remote_player_handles[j].0);
            proof {
                assert(v@ =~= self.local_player_handles@ + mapped.take(j as int + 1));
            }
            j += 1;
        }
        proof {
            assert(mapped.take(mapped.len() as int) =~= mapped);
        }
        v
    }

    /// Decides whether the staged player registration is acceptable.
    pub fn validate_players(&self) -> (ok: bool)
        ensures
            ok == valid_player_setup(*self),
    {
        if self.num_players == 0 {
            return false;
        }
        let staged = self.staged();
        let n = staged.len();
        let mut i: usize = 0;
        while i < n
            invariant
                i <= n,
                n == staged@.len(),
                staged@ == staged_handles(*self),
                forall|a: int, b: int| 0 <= a < b < staged@.len() && a < i ==> staged@[a] != staged@[b],
                forall|a: int| 0 <= a < i ==> #[trigger] staged@[a] < self.num_players,
            decreases n - i,
        {
            if staged[i] >= self.num_players {
                return false;
            }
            let mut j: usize = i + 1;
            while j < n
                invariant
                    i < j <= n,
                    n == staged@.len(),
                    staged@ == staged_handles(*self),
                    forall|b: int| i < b < j ==> staged@[i as int] != staged@[b],
                decreases n - j,
            {
                if staged[i] == staged[j] {
                    return false;
                }
                j += 1;
            }
            i += 1;
        }
        true
    }

    /// Decides whether the staged slots contain a given slot.
    fn staged_contains(staged: &Vec<CPlayerHandle>, p: CPlayerHandle) -> (found: bool)
        ensures
            found == staged@.contains(p),
    {
        let mut i: usize = 0;
        while i < staged.len()
            invariant
                i <= staged@.len(),
                forall|a: int| 0 <= a < i ==> staged@[a] != p,
            decreases staged@.len() - i,
        {
            if staged[i] == p {
                return true;
            }
            i += 1;
        }
        false
    }

    /// Decides whether every player slot `0 .. num_players` is registered.
    pub fn validate_all_staged(&self) -> (ok: bool)
        ensures
            ok == all_players_staged(*self),
    {
        let staged = self.staged();
        let mut p: usize = 0;
        while p < self.num_players
            invariant
                p <= self.num_players,
                staged@ == staged_handles(*self),
                forall|q: CPlayerHandle| q < p ==> staged_handles(*self).contains(q),
            decreases self.num_players - p,
        {
            if !Self::staged_contains(&staged, p) {
                return false;
            }
            p += 1;
        }
        true
    }

    /// Decides whether the engine accepts these settings for a sync test.
    pub fn validate_synctest(&self) -> (ok: bool)
        ensures
            ok == valid_synctest_settings(*self),
    {
        self.fps >= 1 && self.validate_players() && self.max_prediction > SYNCTEST_CHECK_DISTANCE
            && !self.sparse_saving
    }

    /// Decides whether the engine accepts these settings for a peer-to-peer
    /// session.
    pub fn validate_p2p(&self) -> (ok: bool)
        ensures
            ok == valid_p2p_settings(*self),
    {
        self.fps >= 1 && self.validate_players() && self.validate_all_staged()
    }
}

} // verus!
