use vstd::prelude::*;

verus! {

/// The token recorded for a server id, later records winning (saving
/// overwrites).
pub open spec fn lookup_token(s: Seq<(u128, String)>, id: u128) -> Option<Seq<char>>
    decreases s.len(),
{
    if s.len() == 0 {
        None
    } else if s.last().0 == id {
        Some(s.last().1@)
    } else {
        lookup_token(s.drop_last(), id)
    }
}

/// The refresh tokens remembered for servers the user logged into.
#[derive(Debug, Default)]
pub struct Tokens {
    tokens: Vec<(u128, String)>,
}

impl Tokens {
    /// The recorded (server id, token) pairs, in recording order.
    pub closed spec fn tokens(&self) -> Seq<(u128, String)> {
        self.tokens@
    }

    /// The token currently held for a server.
    pub open spec fn token_for(&self, id: u128) -> Option<Seq<char>> {
        lookup_token(self.tokens(), id)
    }

    /// An empty token store.
    pub fn new() -> (r: Self)
        ensures
            r.tokens().len() == 0,
            forall|id: u128| #[trigger] r.token_for(id) is None,
    {
        Tokens { tokens: Vec::new() }
    }

    /// Remember the refresh token for a server, replacing any earlier one.
    pub fn save_token(&mut self, server_uuid: u128, token: &str)
        ensures
            final(self).token_for(server_uuid) == Some(token@),
            forall|other: u128|
                other != server_uuid ==> #[trigger] final(self).token_for(other) == old(
                    self,
                ).token_for(other),
    {
        self.tokens.push((server_uuid, token.to_owned()));
        proof {
            assert(self.tokens@.drop_last() =~= old(self).tokens());
        }
    }

    /// The token remembered for a server, if any.
    pub fn get_token(&self, server_uuid: u128) -> (r: Option<String>)
        ensures
            match r {
                Some(t) => self.token_for(server_uuid) == Some(t@),
                None => self.token_for(server_uuid) is None,
            },
    {
        let mut j: usize = self.tokens.len();
        proof {
            assert(self.tokens@.take(self.tokens@.len() as int) =~= self.tokens@);
        }
        while j > 0
            invariant
                j <= self.tokens@.len(),
                lookup_token(self.tokens@, server_uuid) == lookup_token(
                    self.tokens@.take(j as int),
                    server_uuid,
                ),
            decreases j,
        {
            j = j - 1;
            proof {
                assert(self.tokens@.take(j as int + 1).drop_last() =~= self.tokens@.take(
                    j as int,
                ));
                assert(self.tokens@.take(j as int + 1).last() == self.tokens@[j as int]);
            }
            if self.tokens[j].0 == server_uuid {
                return Some(self.tokens[j].1.clone());
            }
        }
        proof {
            assert(self.tokens@.take(0) =~= Seq::<(u128, String)>::empty());
        }
        None
    }

    /// Forget the token for a server; every other server's token is kept.
    pub fn remove_token(&mut self, server_uuid: u128)
        ensures
            final(self).token_for(server_uuid) is None,
            forall|other: u128|
                other != server_uuid ==> #[trigger] final(self).token_for(other) == old(
                    self,
                ).token_for(other),
    {
        let ghost orig = self.tokens@;
        let mut out: Vec<(u128, String)> = Vec::new();
        let mut i: usize = 0;
        proof {
            assert(orig.take(0) =~= Seq::<(u128, String)>::empty());
        }
        while i < self.tokens.len()
            invariant
                i <= orig.len(),
                self.tokens@ == orig,
                forall|k: u128|
                    #[trigger] lookup_token(out@, k) == (if k == server_uuid {
                        None
                    } else {
                        lookup_token(orig.take(i as int), k)
                    }),
            decreases orig.len() - i,
        {
            let ghost out0 = out@;
            let id = self.tokens[i].0;
            let ghost entry = self.tokens@[i as int];
            if id != server_uuid {
                let tok = self.tokens[i].1.clone();
                out.push((id, tok));
            }
            i = i + 1;
            proof {
                assert(orig.take(i as int).drop_last() =~= orig.take(i as int - 1));
                assert(orig.take(i as int).last() == orig[i as int - 1]);
                if id != server_uuid {
                    assert(out@.drop_last() =~= out0);
                    assert(out@.last().0 == id && out@.last().1@ == entry.1@);
                }
                assert forall|k: u128|
                    #[trigger] lookup_token(out@, k) == (if k == server_uuid {
                        None
                    } else {
                        lookup_token(orig.take(i as int), k)
                    }) by {
                    if id != server_uuid {
                        if k == id {
                            assert(lookup_token(out@, k) == Some(out@.last().1@));
                            assert(lookup_token(orig.take(i as int), k) == Some(
                                orig[i as int - 1].1@,
                            ));
                        } else {
                            assert(lookup_token(out@, k) == lookup_token(out0, k));
                            if k != server_uuid {
                                assert(lookup_token(orig.take(i as int), k) == lookup_token(
                                    orig.take(i as int - 1),
                                    k,
                                ));
                            }
                        }
                    } else {
                        if k != server_uuid {
                            assert(orig[i as int - 1].0 == id);
                            assert(lookup_token(orig.take(i as int), k) == lookup_token(
                                orig.take(i as int - 1),
                                k,
                            ));
                        }
                    }
                }
            }
        }
        proof {
            assert(orig.take(orig.len() as int) =~= orig);
        }
        self.tokens = out;
    }

    /// Forget every token.
    pub fn clear(&mut self)
        ensures
            final(self).tokens().len() == 0,
            forall|id: u128| #[trigger] final(self).token_for(id) is None,
    {
        self.tokens = Vec::new();
    }
}

} // verus!
