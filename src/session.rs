use vstd::prelude::*;
use crate::ids::{is_uuid_v4_text, new_uuid};
use crate::text::{push_char, text_eq};

verus! {

/// The tenant that the latest binding of `token` in `entries` names.
pub open spec fn latest_binding(entries: Seq<(String, String)>, token: Seq<char>) -> Option<Seq<char>>
    decreases entries.len(),
{
    if entries.len() == 0 {
        None
    } else if entries.last().0@ == token {
        Some(entries.last().1@)
    } else {
        latest_binding(entries.drop_last(), token)
    }
}

proof fn lemma_latest_binding_unissued(entries: Seq<(String, String)>, token: Seq<char>)
    requires
        forall|i: int| 0 <= i < entries.len() ==> (#[trigger] entries[i]).0@ != token,
    ensures
        latest_binding(entries, token) is None,
    decreases entries.len(),
{
    if entries.len() > 0 {
        let d = entries.drop_last();
        assert(entries.last() == entries[entries.len() - 1]);
        assert forall|i: int| 0 <= i < d.len() implies (#[trigger] d[i]).0@ != token by {
            assert(d[i] == entries[i]);
        }
        lemma_latest_binding_unissued(d, token);
    }
}

/// The in-memory map from session tokens to tenant identifiers. Sessions
/// have no expiry: a binding lasts as long as the registry.
pub struct SessionRegistry {
    entries: Vec<(String, String)>,
}

impl SessionRegistry {
    /// The tenant `token` is bound to, if any.
    pub closed spec fn binding(&self, token: Seq<char>) -> Option<Seq<char>> {
        latest_binding(self.entries@, token)
    }

    /// Whether `token` was ever bound in this registry.
    pub closed spec fn issued(&self, token: Seq<char>) -> bool {
        exists|i: int| 0 <= i < self.entries@.len() && (#[trigger] self.entries@[i]).0@ == token
    }

    /// A token that was never bound resolves to nothing.
    pub proof fn lemma_unissued_token_absent(&self, token: Seq<char>)
        requires
            !self.issued(token),
        ensures
            self.binding(token) is None,
    {
        lemma_latest_binding_unissued(self.entries@, token);
    }

    /// A registry with no sessions.
    pub fn new() -> (r: Self)
        ensures
            forall|t: Seq<char>| #[trigger] r.binding(t) is None,
            forall|t: Seq<char>| !#[trigger] r.issued(t),
    {
        SessionRegistry { entries: Vec::new() }
    }

    /// Binds `token` to `client_id`, replacing any earlier binding of it.
    pub fn bind(&mut self, token: String, client_id: &str)
        ensures
            final(self).binding(token@) == Some(client_id@),
            forall|t: Seq<char>| t != token@ ==> #[trigger] final(self).binding(t) == old(self).binding(t),
            forall|t: Seq<char>| #[trigger] final(self).issued(t) == (old(self).issued(t) || t == token@),
    {
        let ghost before = self.entries@;
        self.entries.push((token, client_id.to_owned()));
        assert(self.entries@.drop_last() =~= before);
        assert forall|t: Seq<char>| #[trigger] self.issued(t) == (old(self).issued(t) || t == token@) by {
            if old(self).issued(t) {
                let i = choose|i: int| 0 <= i < before.len() && (#[trigger] before[i]).0@ == t;
                assert(self.entries@[i] == before[i]);
            }
            if self.issued(t) && t != token@ {
                let i = choose|i: int| 0 <= i < self.entries@.len() && (#[trigger] self.entries@[i]).0@ == t;
                assert(self.entries@[i] == before[i]);
            }
            if t == token@ {
                assert(self.entries@[before.len() as int].0@ == t);
            }
        }
    }

    /// Whether `token` was ever bound in this registry.
    pub fn is_issued(&self, token: &str) -> (r: bool)
        ensures
            r == self.issued(token@),
    {
        let mut i: usize = 0;
        while i < self.entries.len()
            invariant
                0 <= i <= self.entries@.len(),
                forall|k: int| 0 <= k < i ==> (#[trigger] self.entries@[k]).0@ != token@,
            decreases self.entries@.len() - i,
        {
            if text_eq(self.entries[i].0.as_str(), token) {
                return true;
            }
            i = i + 1;
        }
        false
    }

    /// The length of the longest token ever bound.
    fn longest_token_len(&self) -> (r: usize)
        ensures
            forall|i: int| 0 <= i < self.entries@.len() ==> (#[trigger] self.entries@[i]).0@.len() <= r,
    {
        let mut longest: usize = 0;
        let mut i: usize = 0;
        while i < self.entries.len()
            invariant
                0 <= i <= self.entries@.len(),
                forall|k: int| 0 <= k < i ==> (#[trigger] self.entries@[k]).0@.len() <= longest,
            decreases self.entries@.len() - i,
        {
            let n: usize = self.entries[i].0.as_str().unicode_len();
            if n > longest {
                longest = n;
            }
            i = i + 1;
        }
        longest
    }

    /// Opens a session for `client_id` under a fresh token, and returns the
    /// token. The token starts with a random version 4 UUID; should that
    /// ever have been handed out before, it is lengthened past every token
    /// issued so far, so a token is never handed out twice.
    pub fn create_session(&mut self, client_id: &str) -> (token: String)
        ensures
            !old(self).issued(token@),
            token@.len() >= 36,
            is_uuid_v4_text(token@.subrange(0, 36)),
            final(self).binding(token@) == Some(client_id@),
            forall|t: Seq<char>| t != token@ ==> #[trigger] final(self).binding(t) == old(self).binding(t),
            forall|t: Seq<char>| #[trigger] final(self).issued(t) == (old(self).issued(t) || t == token@),
    {
        let mut token = new_uuid();
        assert(token@.subrange(0, 36) =~= token@);
        if self.is_issued(token.as_str()) {
            let longest = self.longest_token_len();
            while token.as_str().unicode_len() <= longest
                invariant
                    token@.len() >= 36,
                    is_uuid_v4_text(token@.subrange(0, 36)),
                    forall|i: int| 0 <= i < self.entries@.len() ==> (#[trigger] self.entries@[i]).0@.len() <= longest,
                decreases longest + 1 - token@.len(),
            {
                let ghost before = token@;
                push_char(&mut token, 'x');
                assert(token@.subrange(0, 36) =~= before.subrange(0, 36));
            }
            assert forall|i: int| 0 <= i < self.entries@.len() implies (#[trigger] self.entries@[i]).0@ != token@ by {
                assert(self.entries@[i].0@.len() <= longest);
            }
        }
        self.bind(token.clone(), client_id);
        token
    }

    /// The tenant `token` is bound to; `None` for a token never handed out.
    pub fn resolve(&self, token: &str) -> (r: Option<String>)
        ensures
            match r {
                Some(c) => self.binding(token@) == Some(c@),
                None => self.binding(token@) is None,
            },
    {
        let mut i: usize = self.entries.len();
        assert(self.entries@.subrange(0, i as int) =~= self.entries@);
        while i > 0
            invariant
                i <= self.entries@.len(),
                latest_binding(self.entries@, token@) == latest_binding(
                    self.entries@.subrange(0, i as int),
                    token@,
                ),
            decreases i,
        {
            let ghost pre = self.entries@.subrange(0, i as int);
            assert(pre.drop_last() =~= self.entries@.subrange(0, i - 1));
            if text_eq(self.entries[i - 1].0.as_str(), token) {
                return Some(self.entries[i - 1].1.clone());
            }
            i = i - 1;
        }
        assert(self.entries@.subrange(0, 0) =~= Seq::<(String, String)>::empty());
        None
    }
}

/// The prefix of an `Authorization` header that carries a bearer token.
pub open spec fn bearer_prefix() -> Seq<char> {
    seq!['B', 'e', 'a', 'r', 'e', 'r', ' ']
}

/// `s` with every leading copy of the bearer prefix removed.
pub open spec fn strip_bearer(s: Seq<char>) -> Seq<char>
    decreases s.len(),
{
    if s.len() >= 7 && s.subrange(0, 7) == bearer_prefix() {
        strip_bearer(s.subrange(7, s.len() as int))
    } else {
        s
    }
}

/// The token an `Authorization` header carries: the text after its
/// leading bearer prefixes, where it starts with one.
pub open spec fn header_token(header: Seq<char>) -> Option<Seq<char>> {
    if header.len() >= 7 && header.subrange(0, 7) == bearer_prefix() {
        Some(strip_bearer(header))
    } else {
        None
    }
}

fn bearer_at(s: &str, i: usize) -> (r: bool)
    requires
        i <= s@.len(),
    ensures
        r == (s@.len() - i >= 7 && s@.subrange(i as int, i + 7) == bearer_prefix()),
{
    if s.unicode_len() - i < 7 {
        return false;
    }
    let r = s.get_char(i) == 'B' && s.get_char(i + 1) == 'e' && s.get_char(i + 2) == 'a'
        && s.get_char(i + 3) == 'r' && s.get_char(i + 4) == 'e' && s.get_char(i + 5) == 'r'
        && s.get_char(i + 6) == ' ';
    proof {
        if r {
            assert(s@.subrange(i as int, i + 7) =~= bearer_prefix());
        } else if s@.subrange(i as int, i + 7) == bearer_prefix() {
        assert(s@.subrange(i as int, i + 7)[0] == s@[i as int]);
        assert(s@.subrange(i as int, i + 7)[1] == s@[i + 1]);
        assert(s@.subrange(i as int, i + 7)[2] == s@[i + 2]);
        assert(s@.subrange(i as int, i + 7)[3] == s@[i + 3]);
        assert(s@.subrange(i as int, i + 7)[4] == s@[i + 4]);
        assert(s@.subrange(i as int, i + 7)[5] == s@[i + 5]);
        assert(s@.subrange(i as int, i + 7)[6] == s@[i + 6]);
        }
    }
    r
}

/// The token an `Authorization` header carries, if it is a bearer header.
pub fn bearer_token(header: &str) -> (r: Option<String>)
    ensures
        match r {
            Some(t) => header_token(header@) == Some(t@),
            None => header_token(header@) is None,
        },
{
    if !bearer_at(header, 0) {
        return None;
    }
    let n: usize = header.unicode_len();
    let mut i: usize = 0;
    assert(header@.subrange(0, n as int) =~= header@);
    while bearer_at(header, i)
        invariant
            i <= n,
            n == header@.len(),
            strip_bearer(header@) == strip_bearer(header@.subrange(i as int, n as int)),
        decreases n - i,
    {
        let ghost rest = header@.subrange(i as int, n as int);
        assert(rest.subrange(0, 7) =~= header@.subrange(i as int, i + 7));
        assert(rest.subrange(7, rest.len() as int) =~= header@.subrange(i + 7, n as int));
        i = i + 7;
    }
    let ghost rest = header@.subrange(i as int, n as int);
    assert(rest.len() >= 7 ==> rest.subrange(0, 7) =~= header@.subrange(i as int, i + 7));
    Some(header.substring_char(i, n).to_owned())
}

/// The tenant that an `Authorization` header authenticates: `None` where the
/// header is absent, is not a bearer header, or names no session.
pub fn get_client_id_from_header(sessions: &SessionRegistry, header: Option<&str>) -> (r: Option<String>)
    ensures
        match header {
            None => r is None,
            Some(h) => match header_token(h@) {
                None => r is None,
                Some(t) => match r {
                    Some(c) => sessions.binding(t) == Some(c@),
                    None => sessions.binding(t) is None,
                },
            },
        },
{
    match header {
        None => None,
        Some(h) => match bearer_token(h) {
            None => None,
            Some(t) => sessions.resolve(t.as_str()),
        },
    }
}

} // verus!
