//! Routing configuration model: protocol family → virtual host → backend.
//!
//! Tables are held as key/value vectors with distinct keys and are viewed
//! as mathematical maps; every constructor keeps the keys distinct and
//! every stored family's table non-empty, so a family with nothing to
//! route is simply absent.

use vstd::prelude::*;

verus! {

/// The supported game protocols. The one family specified is Minecraft,
/// whose enumeration value doubles as its well-known port.
#[derive(Clone, Copy, PartialEq, Eq, Structural, Hash, Debug)]
pub enum Games {
    Minecraft,
}

/// The family's well-known listening port.
pub open spec fn spec_port(g: Games) -> u16 {
    match g {
        Games::Minecraft => 25565,
    }
}

impl Games {
    /// The default listening port this family is bound on.
    pub fn port(&self) -> (p: u16)
        ensures
            p == spec_port(*self),
    {
        match self {
            Games::Minecraft => 25565,
        }
    }
}

/// Routing failures, told apart because they call for different operator
/// remediation: a family nobody configured versus a host nobody mapped.
#[derive(Debug)]
pub enum MappingError {
    /// host-not-mapped: the family's table has no entry for the host.
    TargetError(String),
    /// family-not-configured: no table exists for the protocol family.
    GameError(String),
}

/// The map a host/backend entry vector denotes; later entries would win,
/// but constructors keep keys distinct so order never matters.
pub open spec fn entry_map(s: Seq<(String, (String, u16))>) -> Map<Seq<char>, (Seq<char>, u16)>
    decreases s.len(),
{
    if s.len() == 0 {
        Map::empty()
    } else {
        entry_map(s.drop_last()).insert(s.last().0@, (s.last().1.0@, s.last().1.1))
    }
}

/// Routing table for one protocol family: virtual-host name → backend
/// `(host, port)` target.
#[derive(Debug)]
pub struct ServerMap {
    pub mapping: Vec<(String, (String, u16))>,
}

impl View for ServerMap {
    type V = Map<Seq<char>, (Seq<char>, u16)>;

    open spec fn view(&self) -> Self::V {
        entry_map(self.mapping@)
    }
}

proof fn lemma_entry_map_dom(s: Seq<(String, (String, u16))>, k: Seq<char>)
    ensures
        entry_map(s).contains_key(k) <==> exists|i: int| 0 <= i < s.len() && s[i].0@ == k,
    decreases s.len(),
{
    if s.len() == 0 {
    } else {
        lemma_entry_map_dom(s.drop_last(), k);
        if s.last().0@ == k {
            assert(s[s.len() - 1].0@ == k);
        } else {
            if exists|i: int| 0 <= i < s.len() && s[i].0@ == k {
                let i = choose|i: int| 0 <= i < s.len() && s[i].0@ == k;
                assert(s.drop_last()[i].0@ == k);
            }
            if entry_map(s).contains_key(k) {
                let i = choose|i: int| 0 <= i < s.drop_last().len() && s.drop_last()[i].0@ == k;
                assert(s[i].0@ == k);
            }
        }
    }
}

proof fn lemma_entry_map_get(s: Seq<(String, (String, u16))>, i: int)
    requires
        0 <= i < s.len(),
        forall|a: int, b: int| 0 <= a < b < s.len() ==> s[a].0@ != s[b].0@,
    ensures
        entry_map(s).contains_key(s[i].0@),
        entry_map(s)[s[i].0@] == (s[i].1.0@, s[i].1.1),
    decreases s.len(),
{
    if i == s.len() - 1 {
    } else {
        assert(forall|a: int, b: int|
            0 <= a < b < s.drop_last().len() ==> s.drop_last()[a].0@ != s.drop_last()[b].0@);
        lemma_entry_map_get(s.drop_last(), i);
        assert(s.last().0@ != s[i].0@);
        assert(s.drop_last()[i] == s[i]);
    }
}

impl ServerMap {
    /// The keys of the stored entries are pairwise distinct.
    pub open spec fn wf(&self) -> bool {
        forall|a: int, b: int|
            0 <= a < b < self.mapping@.len() ==> self.mapping@[a].0@ != self.mapping@[b].0@
    }

    /// An empty routing table.
    pub fn new() -> (r: ServerMap)
        ensures
            r@ == Map::<Seq<char>, (Seq<char>, u16)>::empty(),
            r.wf(),
            r.mapping@.len() == 0,
    {
        let r = ServerMap { mapping: Vec::new() };
        proof {
            assert(r@ =~= Map::<Seq<char>, (Seq<char>, u16)>::empty());
        }
        r
    }

    /// Add one host mapping; a host already present keeps its first entry
    /// and the duplicate is ignored.
    pub fn insert(&mut self, host: String, backend: (String, u16))
        requires
            old(self).wf(),
        ensures
            final(self).wf(),
            final(self)@.contains_key(host@),
            final(self).mapping@.len() > 0,
            (if old(self)@.contains_key(host@) {
                *final(self) == *old(self)
            } else {
                final(self)@ == old(self)@.insert(host@, (backend.0@, backend.1))
            }),
    {
        let n = self.mapping.len();
        let mut i: usize = 0;
        while i < n
            invariant
                n == self.mapping@.len(),
                i <= n,
                self.wf(),
                forall|j: int| 0 <= j < i ==> self.mapping@[j].0@ != host@,
            decreases n - i,
        {
            let entry = &self.mapping[i];
            if entry.0 == host {
                proof {
                    lemma_entry_map_dom(self.mapping@, host@);
                }
                return ;
            }
            i = i + 1;
        }
        proof {
            lemma_entry_map_dom(self.mapping@, host@);
        }
        let ghost before = self.mapping@;
        self.mapping.push((host, backend));
        proof {
            assert(self.mapping@.drop_last() =~= before);
            lemma_entry_map_dom(self.mapping@, self.mapping@.last().0@);
        }
    }

    /// Host lookup: the backend target mapped for the virtual host,
    /// or the host-not-mapped error when the table has no entry for it.
    pub fn lookup(&self, target_host: &String) -> (r: Result<&(String, u16), MappingError>)
        requires
            self.wf(),
        ensures
            match r {
                Ok(t) => self@.contains_key(target_host@) && self@[target_host@] == (t.0@, t.1),
                Err(MappingError::TargetError(m)) => !self@.contains_key(target_host@)
                    && m@ == "Target does not exist in mapping"@,
                Err(MappingError::GameError(_)) => false,
            },
    {
        let n = self.mapping.len();
        let mut i: usize = 0;
        while i < n
            invariant
                n == self.mapping@.len(),
                i <= n,
                self.wf(),
                forall|j: int| 0 <= j < i ==> self.mapping@[j].0@ != target_host@,
            decreases n - i,
        {
            let entry = &self.mapping[i];
            if entry.0 == *target_host {
                proof {
                    lemma_entry_map_get(self.mapping@, i as int);
                }
                return Ok(&entry.1);
            }
            i = i + 1;
        }
        proof {
            lemma_entry_map_dom(self.mapping@, target_host@);
        }
        Err(MappingError::TargetError("Target does not exist in mapping".to_owned()))
    }
}

impl Clone for ServerMap {
    /// An entry-for-entry copy that denotes the same map.
    fn clone(&self) -> (res: Self)
        ensures
            res@ == self@,
            res.wf() <==> self.wf(),
    {
        let n = self.mapping.len();
        let mut mapping: Vec<(String, (String, u16))> = Vec::new();
        let mut i: usize = 0;
        while i < n
            invariant
                n == self.mapping@.len(),
                i <= n,
                mapping@ == self.mapping@.take(i as int),
            decreases n - i,
        {
            let entry = &self.mapping[i];
            mapping.push((entry.0.clone(), (entry.1.0.clone(), entry.1.1)));
            proof {
                assert(mapping@ =~= self.mapping@.take(i as int + 1));
            }
            i = i + 1;
        }
        let res = ServerMap { mapping };
        proof {
            assert(res.mapping@ =~= self.mapping@);
            assert(res.mapping@ == self.mapping@);
        }
        res
    }
}

/// The map a family/table entry vector denotes.
pub open spec fn game_map(s: Seq<(Games, ServerMap)>) -> Map<Games, Map<Seq<char>, (Seq<char>, u16)>>
    decreases s.len(),
{
    if s.len() == 0 {
        Map::empty()
    } else {
        game_map(s.drop_last()).insert(s.last().0, s.last().1@)
    }
}

proof fn lemma_game_map_dom(s: Seq<(Games, ServerMap)>, g: Games)
    ensures
        game_map(s).contains_key(g) <==> exists|i: int| 0 <= i < s.len() && s[i].0 == g,
    decreases s.len(),
{
    if s.len() == 0 {
    } else {
        lemma_game_map_dom(s.drop_last(), g);
        if s.last().0 == g {
            assert(s[s.len() - 1].0 == g);
        } else {
            if exists|i: int| 0 <= i < s.len() && s[i].0 == g {
                let i = choose|i: int| 0 <= i < s.len() && s[i].0 == g;
                assert(s.drop_last()[i].0 == g);
            }
            if game_map(s).contains_key(g) {
                let i = choose|i: int| 0 <= i < s.drop_last().len() && s.drop_last()[i].0 == g;
                assert(s[i].0 == g);
            }
        }
    }
}

proof fn lemma_game_map_get(s: Seq<(Games, ServerMap)>, i: int)
    requires
        0 <= i < s.len(),
        forall|a: int, b: int| 0 <= a < b < s.len() ==> s[a].0 != s[b].0,
    ensures
        game_map(s).contains_key(s[i].0),
        game_map(s)[s[i].0] == s[i].1@,
    decreases s.len(),
{
    if i == s.len() - 1 {
    } else {
        assert(forall|a: int, b: int|
            0 <= a < b < s.drop_last().len() ==> s.drop_last()[a].0 != s.drop_last()[b].0);
        lemma_game_map_get(s.drop_last(), i);
        assert(s.last().0 != s[i].0);
        assert(s.drop_last()[i] == s[i]);
    }
}

/// The whole routing configuration: one table per protocol family, plus
/// the filesystem location it was loaded from.
#[derive(Debug)]
pub struct GameMap {
    pub mapping: Vec<(Games, ServerMap)>,
    pub config_location: String,
}

impl View for GameMap {
    type V = Map<Games, Map<Seq<char>, (Seq<char>, u16)>>;

    open spec fn view(&self) -> Self::V {
        game_map(self.mapping@)
    }
}

/// What routing a host under a family against a configuration yields:
/// the backend target, or nothing where family or host is unmapped.
pub open spec fn spec_route(c: GameMap, g: Games, h: Seq<char>) -> Option<(Seq<char>, u16)> {
    if c@.contains_key(g) && c@[g].contains_key(h) {
        Some(c@[g][h])
    } else {
        None
    }
}

impl GameMap {
    /// Family keys are pairwise distinct; every stored table has distinct
    /// keys of its own and at least one entry.
    pub open spec fn wf(&self) -> bool {
        &&& forall|a: int, b: int|
            0 <= a < b < self.mapping@.len() ==> self.mapping@[a].0 != self.mapping@[b].0
        &&& forall|i: int| 0 <= i < self.mapping@.len() ==> (#[trigger] self.mapping@[i].1).wf()
        &&& forall|i: int|
            0 <= i < self.mapping@.len() ==> (#[trigger] self.mapping@[i].1).mapping@.len() > 0
    }

    /// The family keys, in storage order.
    pub open spec fn spec_families(&self) -> Seq<Games> {
        self.mapping@.map_values(|e: (Games, ServerMap)| e.0)
    }

    /// An empty configuration that records where it was loaded from.
    pub fn new(config_location: String) -> (r: GameMap)
        ensures
            r@ == Map::<Games, Map<Seq<char>, (Seq<char>, u16)>>::empty(),
            r.wf(),
            r.config_location == config_location,
            r.mapping@.len() == 0,
    {
        let r = GameMap { mapping: Vec::new(), config_location };
        proof {
            assert(r@ =~= Map::<Games, Map<Seq<char>, (Seq<char>, u16)>>::empty());
        }
        r
    }

    /// Add a family's routing table. An empty table is not stored — a
    /// family with nothing to route is simply absent — and the first table
    /// for a family wins.
    pub fn insert(&mut self, game: Games, table: ServerMap)
        requires
            old(self).wf(),
            table.wf(),
        ensures
            final(self).wf(),
            final(self).config_location == old(self).config_location,
            (if old(self)@.contains_key(game) || table.mapping@.len() == 0 {
                *final(self) == *old(self)
            } else {
                final(self)@ == old(self)@.insert(game, table@)
            }),
    {
        if table.mapping.len() == 0 {
            return ;
        }
        let n = self.mapping.len();
        let mut i: usize = 0;
        while i < n
            invariant
                n == self.mapping@.len(),
                i <= n,
                *self == *old(self),
                self.wf(),
                forall|j: int| 0 <= j < i ==> self.mapping@[j].0 != game,
            decreases n - i,
        {
            if self.mapping[i].0 == game {
                proof {
                    lemma_game_map_dom(self.mapping@, game);
                }
                return ;
            }
            i = i + 1;
        }
        proof {
            lemma_game_map_dom(self.mapping@, game);
        }
        let ghost before = self.mapping@;
        self.mapping.push((game, table));
        proof {
            assert(self.mapping@.drop_last() =~= before);
        }
    }

    /// The protocol families the configuration holds a table for.
    pub fn get_games(&self) -> (r: Vec<Games>)
        ensures
            r@ == self.spec_families(),
            forall|g: Games| r@.contains(g) <==> self@.contains_key(g),
    {
        let n = self.mapping.len();
        let mut r: Vec<Games> = Vec::new();
        let mut i: usize = 0;
        while i < n
            invariant
                n == self.mapping@.len(),
                i <= n,
                r@.len() == i,
                forall|j: int| 0 <= j < i ==> r@[j] == self.mapping@[j].0,
            decreases n - i,
        {
            r.push(self.mapping[i].0);
            i = i + 1;
        }
        proof {
            assert(r@ =~= self.spec_families());
            assert forall|g: Games| r@.contains(g) <==> self@.contains_key(g) by {
                lemma_game_map_dom(self.mapping@, g);
                if exists|j: int| 0 <= j < self.mapping@.len() && self.mapping@[j].0 == g {
                    let j = choose|j: int| 0 <= j < self.mapping@.len() && self.mapping@[j].0 == g;
                    assert(r@[j] == g);
                }
                if r@.contains(g) {
                    let j = choose|j: int| 0 <= j < r@.len() && r@[j] == g;
                    assert(self.mapping@[j].0 == g);
                }
            }
        }
        r
    }

    /// Family lookup: a copy of the family's routing table, or the
    /// family-not-configured error when none exists.
    pub fn get_mapping(&self, game: &Games) -> (r: Result<ServerMap, MappingError>)
        requires
            self.wf(),
        ensures
            match r {
                Ok(m) => self@.contains_key(*game) && m@ == self@[*game] && m.wf(),
                Err(MappingError::GameError(msg)) => !self@.contains_key(*game)
                    && msg@ == "Mapping does not exist for Minecraft."@,
                Err(MappingError::TargetError(_)) => false,
            },
    {
        let n = self.mapping.len();
        let mut i: usize = 0;
        while i < n
            invariant
                n == self.mapping@.len(),
                i <= n,
                self.wf(),
                forall|j: int| 0 <= j < i ==> self.mapping@[j].0 != *game,
            decreases n - i,
        {
            if self.mapping[i].0 == *game {
                proof {
                    lemma_game_map_get(self.mapping@, i as int);
                }
                return Ok(self.mapping[i].1.clone());
            }
            i = i + 1;
        }
        proof {
            lemma_game_map_dom(self.mapping@, *game);
        }
        Err(MappingError::GameError(match game {
            Games::Minecraft => "Mapping does not exist for Minecraft.".to_owned(),
        }))
    }

    /// Resolve a protocol family and sniffed virtual host to
    /// the backend target. Fails family-not-configured (GameError) when
    /// the family has no table, host-not-mapped (TargetError) when the
    /// table has no entry for the host.
    pub fn route(&self, game: &Games, target_host: &String) -> (r: Result<(String, u16), MappingError>)
        requires
            self.wf(),
        ensures
            match r {
                Ok(t) => spec_route(*self, *game, target_host@) == Some((t.0@, t.1)),
                Err(MappingError::GameError(_)) => !self@.contains_key(*game),
                Err(MappingError::TargetError(_)) => self@.contains_key(*game)
                    && !self@[*game].contains_key(target_host@),
            },
    {
        let table = match self.get_mapping(game) {
            Ok(t) => t,
            Err(e) => {
                return Err(e);
            },
        };
        match table.lookup(target_host) {
            Ok(t) => Ok((t.0.clone(), t.1)),
            Err(e) => Err(e),
        }
    }
}

} // verus!
