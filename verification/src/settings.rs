//! The persisted server settings row, as the application reads it from its
//! database. Only the parsing of the stored domain list is logic of this
//! library; fetching the row is the embedding application's affair.

use vstd::prelude::*;
use vstd::string::*;
use crate::text::{
    chars_to_string, copy_range, find_char, lemma_first_index_of, nonempty_parts, split_on,
    string_to_chars,
};

verus! {

/// One row of server settings.
#[derive(Clone, Debug, PartialEq, Eq)]
pub struct ServerSettingDAO {
    pub security_allowed_register_domain_list: Option<String>,
    pub security_disable_client_side_telemetry: bool,
    pub network_external_url: String,
}

/// The domain names stored in a raw comma-separated list: the pieces between
/// commas, with empty pieces dropped.
pub open spec fn domain_list_spec(raw: Option<Seq<char>>) -> Seq<Seq<char>> {
    match raw {
        Option::None => Seq::empty(),
        Option::Some(s) => nonempty_parts(split_on(s, ',')),
    }
}

impl ServerSettingDAO {
    /// The stored raw domain list, if any.
    pub open spec fn spec_domain_list(&self) -> Option<Seq<char>> {
        match self.security_allowed_register_domain_list {
            Option::None => Option::None,
            Option::Some(s) => Option::Some(s@),
        }
    }

    /// Builds a row from its column values.
    pub fn new(
        security_allowed_register_domain_list: Option<String>,
        security_disable_client_side_telemetry: bool,
        network_external_url: String,
    ) -> (r: Self)
        ensures
            r.spec_domain_list() == (match security_allowed_register_domain_list {
                Option::None => Option::<Seq<char>>::None,
                Option::Some(s) => Option::Some(s@),
            }),
            r.security_disable_client_side_telemetry == security_disable_client_side_telemetry,
            r.network_external_url == network_external_url,
    {
        ServerSettingDAO {
            security_allowed_register_domain_list,
            security_disable_client_side_telemetry,
            network_external_url,
        }
    }

    /// The domains from which registration is allowed: the non-empty pieces
    /// of the stored comma-separated list, in order; empty when no list is
    /// stored.
    pub fn security_allowed_register_domain_list(&self) -> (r: Vec<String>)
        ensures
            r@.map_values(|s: String| s@) == domain_list_spec(self.spec_domain_list()),
    {
        let mut out: Vec<String> = Vec::new();
        match &self.security_allowed_register_domain_list {
            Option::None => {
                proof {
                    assert(out@.map_values(|s: String| s@) =~= domain_list_spec(
                        self.spec_domain_list(),
                    ));
                }
            },
            Option::Some(raw) => {
                let cs = string_to_chars(raw.as_str());
                let n = cs.len();
                let mut pos: usize = 0;
                let mut done = false;
                proof {
                    assert(cs@.skip(0) =~= cs@);
                    assert(out@.map_values(|s: String| s@) =~= Seq::<Seq<char>>::empty());
                }
                while !done
                    invariant
                        pos <= n,
                        n == cs@.len(),
                        cs@ == raw@,
                        self.spec_domain_list() == Option::Some(raw@),
                        domain_list_spec(self.spec_domain_list()) == out@.map_values(
                            |s: String| s@,
                        ) + (if done {
                            Seq::<Seq<char>>::empty()
                        } else {
                            nonempty_parts(split_on(cs@.skip(pos as int), ','))
                        }),
                    decreases n + 1 - pos, (if done { 0int } else { 1int }),
                {
                    let ghost suffix = cs@.skip(pos as int);
                    let ghost dspec = domain_list_spec(self.spec_domain_list());
                    let ghost parts = split_on(suffix, ',');
                    let k = find_char(&cs, pos, ',');
                    let seg = copy_range(&cs, pos, k);
                    proof {
                        lemma_first_index_of(suffix, ',');
                        assert(seg@ =~= suffix.take(k - pos));
                    }
                    let ghost out_before = out@.map_values(|s: String| s@);
                    if seg.len() > 0 {
                        out.push(chars_to_string(&seg));
                        proof {
                            assert(out@.map_values(|s: String| s@) =~= out_before.push(seg@));
                        }
                    }
                    let ghost out_now = out@.map_values(|s: String| s@);
                    if k < n {
                        proof {
                            let rest = split_on(cs@.skip(k + 1), ',');
                            assert(suffix.skip(k - pos + 1) =~= cs@.skip(k + 1));
                            assert(parts == seq![suffix.take(k - pos)] + split_on(
                                suffix.skip(k - pos + 1),
                                ',',
                            ));
                            assert(parts.first() == seg@);
                            assert(parts.drop_first() =~= rest);
                            assert(nonempty_parts(parts.drop_first()) == nonempty_parts(rest));
                            if seg@.len() > 0 {
                                assert(nonempty_parts(parts) == seq![seg@] + nonempty_parts(rest));
                                assert(dspec =~= out_now + nonempty_parts(rest));
                            } else {
                                assert(nonempty_parts(parts) == nonempty_parts(rest));
                                assert(dspec =~= out_now + nonempty_parts(rest));
                            }
                        }
                        pos = k + 1;
                    } else {
                        proof {
                            assert(parts == seq![suffix]);
                            assert(seg@ =~= suffix);
                            if seg@.len() > 0 {
                                assert(parts.first().len() > 0);
                                assert(parts.drop_first() =~= Seq::<Seq<char>>::empty());
                                assert(nonempty_parts(parts) =~= seq![suffix]);
                                assert(dspec =~= out_now + Seq::<Seq<char>>::empty());
                            } else {
                                assert(nonempty_parts(parts) =~= Seq::<Seq<char>>::empty());
                                assert(dspec =~= out_now + Seq::<Seq<char>>::empty());
                            }
                        }
                        done = true;
                    }
                }
                proof {
                    assert(domain_list_spec(self.spec_domain_list()) =~= out@.map_values(
                        |s: String| s@,
                    ));
                }
            },
        }
        out
    }
}

/// One step of obtaining the settings row: what to do with what the first
/// query returned.
#[derive(Clone, Debug, PartialEq, Eq)]
pub enum SettingsReadStep {
    /// The row exists: use it as it stands.
    Ready(ServerSettingDAO),
    /// No row yet: insert the default row, then read again — the freshly
    /// written row must then be present.
    InsertDefaultThenRetry,
}

/// Decides the next step after the first read of the settings row: an
/// existing row is used unchanged, a missing row is created with its
/// defaults and read again. The queries themselves are the embedding
/// application's affair.
pub fn settings_read_step(first: Option<ServerSettingDAO>) -> (r: SettingsReadStep)
    ensures
        first matches Some(dao) ==> r == SettingsReadStep::Ready(dao),
        first is None ==> r == SettingsReadStep::InsertDefaultThenRetry,
{
    match first {
        Option::Some(dao) => SettingsReadStep::Ready(dao),
        Option::None => SettingsReadStep::InsertDefaultThenRetry,
    }
}

} // verus!
