use vstd::prelude::*;

verus! {

/// Identifier of a connected client.
#[derive(Debug, PartialEq, Eq, Hash, PartialOrd, Ord)]
pub struct ClientId(pub String);

/// Identifier of a lobby.
#[derive(Debug, PartialEq, Eq, Hash, PartialOrd, Ord)]
pub struct LobbyId(pub String);

/// Identifier of a running game session.
#[derive(Debug, PartialEq, Eq, Hash, PartialOrd, Ord)]
pub struct SessionId(pub String);

/// Identifier of a participant of a game (human or bot).
#[derive(Debug, PartialEq, Eq, Hash, PartialOrd, Ord)]
pub struct PlayerId(pub String);

/// Identifier of a bot.
#[derive(Debug, PartialEq, Eq, Hash, PartialOrd, Ord)]
pub struct BotId(pub String);

impl View for PlayerId {
    type V = Seq<char>;

    open spec fn view(&self) -> Seq<char> {
        self.0@
    }
}

impl Clone for PlayerId {
    fn clone(&self) -> (res: Self)
        ensures
            res@ == self@,
    {
        PlayerId(self.0.clone())
    }
}

impl PlayerId {
    pub fn new(id: String) -> (res: Self)
        ensures
            res@ == id@,
    {
        PlayerId(id)
    }

    pub fn as_str(&self) -> (res: &str)
        ensures
            res@ == self@,
    {
        self.0.as_str()
    }

    /// The identifier as an owned string (what `Display` prints).
    pub fn to_string(&self) -> (res: String)
        ensures
            res@ == self@,
    {
        self.0.clone()
    }

    /// Whether two identifiers hold the same text.
    pub fn same_as(&self, other: &PlayerId) -> (res: bool)
        ensures
            res == (self@ == other@),
    {
        self.0 == other.0
    }
}

impl View for BotId {
    type V = Seq<char>;

    open spec fn view(&self) -> Seq<char> {
        self.0@
    }
}

impl Clone for BotId {
    fn clone(&self) -> (res: Self)
        ensures
            res@ == self@,
    {
        BotId(self.0.clone())
    }
}

impl BotId {
    pub fn new(id: String) -> (res: Self)
        ensures
            res@ == id@,
    {
        BotId(id)
    }

    pub fn as_str(&self) -> (res: &str)
        ensures
            res@ == self@,
    {
        self.0.as_str()
    }

    /// The identifier as an owned string (what `Display` prints).
    pub fn to_string(&self) -> (res: String)
        ensures
            res@ == self@,
    {
        self.0.clone()
    }

    /// The player identifier under which this bot takes part in a game:
    /// the same text.
    pub fn to_player_id(&self) -> (res: PlayerId)
        ensures
            res@ == self@,
    {
        PlayerId::new(self.0.clone())
    }
}

impl View for ClientId {
    type V = Seq<char>;

    open spec fn view(&self) -> Seq<char> {
        self.0@
    }
}

impl Clone for ClientId {
    fn clone(&self) -> (res: Self)
        ensures
            res@ == self@,
    {
        ClientId(self.0.clone())
    }
}

impl ClientId {
    pub fn new(id: String) -> (res: Self)
        ensures
            res@ == id@,
    {
        ClientId(id)
    }

    pub fn as_str(&self) -> (res: &str)
        ensures
            res@ == self@,
    {
        self.0.as_str()
    }

    /// The identifier as an owned string (what `Display` prints).
    pub fn to_string(&self) -> (res: String)
        ensures
            res@ == self@,
    {
        self.0.clone()
    }
}

impl View for LobbyId {
    type V = Seq<char>;

    open spec fn view(&self) -> Seq<char> {
        self.0@
    }
}

impl Clone for LobbyId {
    fn clone(&self) -> (res: Self)
        ensures
            res@ == self@,
    {
        LobbyId(self.0.clone())
    }
}

impl LobbyId {
    pub fn new(id: String) -> (res: Self)
        ensures
            res@ == id@,
    {
        LobbyId(id)
    }

    pub fn as_str(&self) -> (res: &str)
        ensures
            res@ == self@,
    {
        self.0.as_str()
    }

    /// The identifier as an owned string (what `Display` prints).
    pub fn to_string(&self) -> (res: String)
        ensures
            res@ == self@,
    {
        self.0.clone()
    }
}

impl View for SessionId {
    type V = Seq<char>;

    open spec fn view(&self) -> Seq<char> {
        self.0@
    }
}

impl Clone for SessionId {
    fn clone(&self) -> (res: Self)
        ensures
            res@ == self@,
    {
        SessionId(self.0.clone())
    }
}

impl SessionId {
    pub fn new(id: String) -> (res: Self)
        ensures
            res@ == id@,
    {
        SessionId(id)
    }

    pub fn as_str(&self) -> (res: &str)
        ensures
            res@ == self@,
    {
        self.0.as_str()
    }

    /// The identifier as an owned string (what `Display` prints).
    pub fn to_string(&self) -> (res: String)
        ensures
            res@ == self@,
    {
        self.0.clone()
    }
}

} // verus!
