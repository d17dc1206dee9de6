//! The credential store: usernames with their SHA-1 password digests, loaded
//! from htpasswd text (`user:{SHA}base64digest`, one record per line).
use vstd::prelude::*;
use vstd::utf8::encode_utf8;

use crate::codec::{base64_decoded, decode_base64, sha1_digest, sha1_of};
use crate::error::{Error, LoadFault};
use crate::text::{chars_of, trim, trim_bounds};
use vstd::string::StrSliceExecFns;

verus! {

/// The separator `:{SHA}` starts at position `p` of `t`.
pub open spec fn marker_at(t: Seq<char>, p: int) -> bool {
    0 <= p && p + 6 <= t.len() && t[p] == ':' && t[p + 1] == '{' && t[p + 2] == 'S' && t[p
        + 3] == 'H' && t[p + 4] == 'A' && t[p + 5] == '}'
}

/// The separator occurs in `t` at `p` and nowhere else, so that splitting on
/// it gives exactly two parts.
pub open spec fn sole_marker(t: Seq<char>, p: int) -> bool {
    marker_at(t, p) && forall|q: int| marker_at(t, q) ==> q == p
}

/// `t` is a record: the separator occurs exactly once.
pub open spec fn is_record(t: Seq<char>) -> bool {
    exists|p: int| sole_marker(t, p)
}

/// Where the separator of a record stands.
pub open spec fn marker_of(t: Seq<char>) -> int {
    choose|p: int| sole_marker(t, p)
}

/// The username of a record.
pub open spec fn record_user(t: Seq<char>) -> Seq<char> {
    t.subrange(0, marker_of(t))
}

/// The base64 text of a record's digest.
pub open spec fn record_digest_text(t: Seq<char>) -> Seq<char> {
    t.subrange(marker_of(t) + 6, t.len() as int)
}

/// The effect of line number `index` of an htpasswd source on the users
/// loaded so far: blank lines change nothing, a record adds its user, and
/// anything else is a fault.
pub open spec fn load_line(m: Map<Seq<char>, Seq<u8>>, index: nat, line: Seq<char>) -> Result<
    Map<Seq<char>, Seq<u8>>,
    LoadFault,
> {
    let t = trim(line);
    if t.len() == 0 {
        Ok(m)
    } else if !is_record(t) {
        Err(LoadFault::MalformedLine { line: index })
    } else {
        match base64_decoded(encode_utf8(record_digest_text(t))) {
            None => Err(LoadFault::BadPasswordEncoding { line: index }),
            Some(digest) => if m.contains_key(record_user(t)) {
                Err(LoadFault::DuplicateUser { user: record_user(t) })
            } else {
                Ok(m.insert(record_user(t), digest))
            },
        }
    }
}

/// The users of a whole htpasswd source, or its first fault.
pub open spec fn load(lines: Seq<Seq<char>>) -> Result<Map<Seq<char>, Seq<u8>>, LoadFault>
    decreases lines.len(),
{
    if lines.len() == 0 {
        Ok(Map::empty())
    } else {
        match load(lines.drop_last()) {
            Ok(m) => load_line(m, (lines.len() - 1) as nat, lines.last()),
            Err(f) => Err(f),
        }
    }
}

/// The store `m` accepts `password` for `user`: the user is known and the
/// SHA-1 digest of the password's UTF-8 bytes is the stored one.
pub open spec fn accepts(m: Map<Seq<char>, Seq<u8>>, user: Seq<char>, password: Seq<char>) -> bool {
    m.contains_key(user) && m[user] == sha1_of(encode_utf8(password))
}

/// Once a prefix of the source has a fault, the whole source has that fault.
pub proof fn lemma_fault_persists(lines: Seq<Seq<char>>, k: int)
    requires
        0 <= k <= lines.len(),
        load(lines.take(k)) is Err,
    ensures
        load(lines) == load(lines.take(k)),
    decreases lines.len(),
{
    if k == lines.len() {
        assert(lines.take(k) =~= lines);
    } else {
        assert(lines.drop_last().take(k) =~= lines.take(k));
        lemma_fault_persists(lines.drop_last(), k);
    }
}

/// A source that loads has loaded every record in it: each record's digest
/// decodes, and the store holds it under the record's user.
pub proof fn lemma_load_keeps_records(lines: Seq<Seq<char>>, i: int)
    requires
        load(lines) is Ok,
        0 <= i < lines.len(),
        is_record(trim(lines[i])),
    ensures
        ({
            let t = trim(lines[i]);
            let m = load(lines)->Ok_0;
            &&& base64_decoded(encode_utf8(record_digest_text(t))) is Some
            &&& m.contains_key(record_user(t))
            &&& m[record_user(t)] == base64_decoded(encode_utf8(record_digest_text(t)))->0
        }),
    decreases lines.len(),
{
    let t = trim(lines[i]);
    let p = marker_of(t);
    assert(sole_marker(t, p));
    let n = lines.len() - 1;
    if i < n {
        assert(lines.drop_last()[i] == lines[i]);
        lemma_load_keeps_records(lines.drop_last(), i);
    }
}

/// The store a source loads accepts, for each record's user, exactly the
/// passwords whose SHA-1 digest is the one the record holds: the password
/// the record was made from, and any other only if its digest is the same.
pub proof fn lemma_loaded_user_accepts(lines: Seq<Seq<char>>, i: int, password: Seq<char>)
    requires
        load(lines) is Ok,
        0 <= i < lines.len(),
        is_record(trim(lines[i])),
        base64_decoded(encode_utf8(record_digest_text(trim(lines[i])))) == Some(
            sha1_of(encode_utf8(password)),
        ),
    ensures
        accepts(load(lines)->Ok_0, record_user(trim(lines[i])), password),
        forall|other: Seq<char>|
            accepts(load(lines)->Ok_0, record_user(trim(lines[i])), other) <==> sha1_of(
                encode_utf8(other),
            ) == sha1_of(encode_utf8(password)),
{
    lemma_load_keeps_records(lines, i);
}

/// A user that is not registered is refused, whatever the password.
pub proof fn lemma_unknown_user_refused(
    m: Map<Seq<char>, Seq<u8>>,
    user: Seq<char>,
    password: Seq<char>,
)
    requires
        !m.contains_key(user),
    ensures
        !accepts(m, user, password),
{
}

/// A source with two records for one user does not load. Where everything
/// before the second record loads and its digest decodes, the fault is the
/// duplicate user, named.
pub proof fn lemma_duplicate_user_fails(lines: Seq<Seq<char>>, i: int, j: int)
    requires
        0 <= i < j < lines.len(),
        is_record(trim(lines[i])),
        is_record(trim(lines[j])),
        record_user(trim(lines[i])) == record_user(trim(lines[j])),
    ensures
        load(lines) is Err,
        load(lines.take(j)) is Ok && base64_decoded(encode_utf8(record_digest_text(trim(lines[j]))))
            is Some ==> load(lines) == Err::<Map<Seq<char>, Seq<u8>>, LoadFault>(
            LoadFault::DuplicateUser { user: record_user(trim(lines[j])) },
        ),
{
    let t = trim(lines[j]);
    assert(lines.take(j + 1).drop_last() =~= lines.take(j));
    assert(lines.take(j + 1).last() == lines[j]);
    assert(sole_marker(t, marker_of(t)));
    if load(lines.take(j)) is Ok {
        assert(lines.take(j)[i] == lines[i]);
        lemma_load_keeps_records(lines.take(j), i);
        lemma_fault_persists(lines, j + 1);
    } else {
        lemma_fault_persists(lines, j);
    }
}

/// A non-blank line that is no record (the separator `:{SHA}` missing or
/// repeated) is reported as malformed under its own 0-based number, once
/// the lines before it load.
pub proof fn lemma_malformed_line_reported(lines: Seq<Seq<char>>, i: int)
    requires
        0 <= i < lines.len(),
        trim(lines[i]).len() > 0,
        !is_record(trim(lines[i])),
        load(lines.take(i)) is Ok,
    ensures
        load(lines) == Err::<Map<Seq<char>, Seq<u8>>, LoadFault>(
            LoadFault::MalformedLine { line: i as nat },
        ),
{
    assert(lines.take(i + 1).drop_last() =~= lines.take(i));
    assert(lines.take(i + 1).last() == lines[i]);
    lemma_fault_persists(lines, i + 1);
}

/// Where the separator stands alone in `cs[a..b]`, relative to `a`; `None`
/// where that part of `cs` is no record.
fn find_sole_marker(cs: &Vec<char>, a: usize, b: usize) -> (r: Option<usize>)
    requires
        a <= b <= cs@.len(),
    ensures
        match r {
            Some(p) => p + 6 <= b - a && sole_marker(cs@.subrange(a as int, b as int), p as int),
            None => !is_record(cs@.subrange(a as int, b as int)),
        },
{
    let ghost t = cs@.subrange(a as int, b as int);
    let mut found: Option<usize> = None;
    let mut q: usize = 0;
    while 6 <= b - a - q
        invariant
            a <= b <= cs@.len(),
            t == cs@.subrange(a as int, b as int),
            q <= b - a,
            match found {
                Some(p) => p < q && marker_at(t, p as int) && forall|k: int|
                    0 <= k < q && marker_at(t, k) ==> k == p,
                None => forall|k: int| 0 <= k < q ==> !marker_at(t, k),
            },
        decreases b - a - q,
    {
        let i = a + q;
        if cs[i] == ':' && cs[i + 1] == '{' && cs[i + 2] == 'S' && cs[i + 3] == 'H' && cs[i + 4]
            == 'A' && cs[i + 5] == '}' {
            assert(marker_at(t, q as int));
            match found {
                Some(p) => {
                    assert forall|k: int| !sole_marker(t, k) by {
                        if sole_marker(t, k) {
                            assert(k == p && k == q);
                        }
                    }
                    return None;
                },
                None => {
                    found = Some(q);
                },
            }
        } else {
            assert(!marker_at(t, q as int));
        }
        q = q + 1;
    }
    assert forall|k: int| q <= k implies !marker_at(t, k) by {}
    match found {
        Some(p) => Some(p),
        None => {
            assert forall|k: int| !sole_marker(t, k) by {
                if sole_marker(t, k) {
                    assert(marker_at(t, k));
                }
            }
            None
        },
    }
}

/// Whether two byte sequences are equal, compared in full.
fn same_bytes(x: &[u8], y: &[u8]) -> (r: bool)
    ensures
        r == (x@ == y@),
{
    if x.len() != y.len() {
        return false;
    }
    let mut i: usize = 0;
    while i < x.len()
        invariant
            i <= x@.len() == y@.len(),
            forall|j: int| 0 <= j < i ==> x@[j] == y@[j],
        decreases x@.len() - i,
    {
        if x[i] != y[i] {
            return false;
        }
        i = i + 1;
    }
    assert(x@ =~= y@);
    true
}

/// A set of registered users, each with the SHA-1 digest of their password.
/// Usernames are unique.
pub struct HtpasswdDatabase {
    registered_users: Vec<(String, Vec<u8>)>,
    model: Ghost<Map<Seq<char>, Seq<u8>>>,
}

impl View for HtpasswdDatabase {
    type V = Map<Seq<char>, Seq<u8>>;

    closed spec fn view(&self) -> Map<Seq<char>, Seq<u8>> {
        self.model@
    }
}

impl HtpasswdDatabase {
    /// Records and model agree, and no username has two records.
    pub closed spec fn wf(&self) -> bool {
        &&& forall|i: int, j: int|
            0 <= i < j < self.registered_users@.len() ==> self.registered_users@[i].0@
                != self.registered_users@[j].0@
        &&& forall|i: int|
            0 <= i < self.registered_users@.len() ==> self.model@.contains_key(
                #[trigger] self.registered_users@[i].0@,
            ) && self.model@[self.registered_users@[i].0@] == self.registered_users@[i].1@
        &&& forall|k: Seq<char>|
            #[trigger] self.model@.contains_key(k) ==> exists|i: int|
                0 <= i < self.registered_users@.len() && self.registered_users@[i].0@ == k
    }

    /// An empty store.
    pub fn new() -> (r: HtpasswdDatabase)
        ensures
            r.wf(),
            r@ == Map::<Seq<char>, Seq<u8>>::empty(),
    {
        HtpasswdDatabase { registered_users: Vec::new(), model: Ghost(Map::empty()) }
    }

    /// The position of `user`'s record, if the user is registered.
    fn position_of(&self, user: &String) -> (r: Option<usize>)
        requires
            self.wf(),
        ensures
            match r {
                Some(i) => i < self.registered_users@.len() && self.registered_users@[i as int].0@
                    == user@,
                None => !self@.contains_key(user@),
            },
    {
        let mut i: usize = 0;
        while i < self.registered_users.len()
            invariant
                i <= self.registered_users@.len(),
                forall|j: int| 0 <= j < i ==> self.registered_users@[j].0@ != user@,
            decreases self.registered_users@.len() - i,
        {
            if self.registered_users[i].0 == *user {
                return Some(i);
            }
            i = i + 1;
        }
        None
    }

    /// Registers `user` with the given digest, unless the user is already
    /// registered: then nothing changes and the error names the user.
    pub fn add(&mut self, user: &str, sha1_password: Vec<u8>) -> (r: Result<(), Error>)
        requires
            old(self).wf(),
        ensures
            final(self).wf(),
            old(self)@.contains_key(user@) ==> final(self)@ == old(self)@ && r is Err
                && r->Err_0.reports(user@, LoadFault::DuplicateUser { user: user@ }),
            !old(self)@.contains_key(user@) ==> r is Ok && final(self)@ == old(self)@.insert(
                user@,
                sha1_password@,
            ),
    {
        let name = user.to_owned();
        match self.position_of(&name) {
            Some(i) => {
                proof {
                    assert(self.model@.contains_key(self.registered_users@[i as int].0@));
                }
                Err(Error::DuplicateUser { user: name })
            },
            None => {
                let ghost digest = sha1_password@;
                let ghost old_users = self.registered_users@;
                let ghost new_model = self.model@.insert(name@, digest);
                self.registered_users.push((name, sha1_password));
                self.model = Ghost(new_model);
                proof {
                    let users = self.registered_users@;
                    assert forall|k: Seq<char>| #[trigger] new_model.contains_key(k) implies exists|
                        i: int,
                    | 0 <= i < users.len() && users[i].0@ == k by {
                        if k == name@ {
                            assert(users[users.len() - 1].0@ == k);
                        } else {
                            let i = choose|i: int|
                                0 <= i < old_users.len() && old_users[i].0@ == k;
                            assert(users[i] == old_users[i]);
                        }
                    }
                    assert forall|i: int|
                        0 <= i < users.len() implies new_model.contains_key(
                        #[trigger] users[i].0@,
                    ) && new_model[users[i].0@] == users[i].1@ by {
                        if i < old_users.len() {
                            assert(users[i] == old_users[i]);
                        }
                    }
                }
                Ok(())
            },
        }
    }

    /// Whether `password` is `user`'s password: the user is registered and
    /// the SHA-1 digest of the password's UTF-8 bytes equals the stored
    /// digest, byte for byte. An unknown user is refused.
    pub fn is_valid(&self, user: &str, password: &str) -> (r: bool)
        requires
            self.wf(),
        ensures
            r == accepts(self@, user@, password@),
    {
        // The digest is computed for unknown users too, so that an unknown
        // user and a wrong password go the same way.
        let digest = sha1_digest(password.as_bytes());
        let name = user.to_owned();
        match self.position_of(&name) {
            None => false,
            Some(i) => {
                assert(self.model@.contains_key(self.registered_users@[i as int].0@));
                same_bytes(self.registered_users[i].1.as_slice(), digest.as_slice())
            },
        }
    }

    /// Takes in line number `index` of the source named `origin`: a blank
    /// line changes nothing, a record `user:{SHA}base64digest` registers its
    /// user with the decoded digest, and anything else is refused with the
    /// error that names the fault, the store left unchanged.
    pub fn add_line(&mut self, origin: &str, index: usize, line: &str) -> (r: Result<(), Error>)
        requires
            old(self).wf(),
        ensures
            final(self).wf(),
            match load_line(old(self)@, index as nat, line@) {
                Ok(m) => r is Ok && final(self)@ == m,
                Err(f) => r is Err && r->Err_0.reports(origin@, f) && final(self)@ == old(self)@,
            },
    {
        let cs = chars_of(line);
        let (a, b) = trim_bounds(&cs);
        let ghost t = cs@.subrange(a as int, b as int);
        if a == b {
            return Ok(());
        }
        match find_sole_marker(&cs, a, b) {
            None => Err(Error::MalformedHtpasswdLine { path_string: origin.to_owned(), line: index }),
            Some(p) => {
                proof {
                    assert(marker_of(t) == p);
                    assert(record_user(t) =~= line@.subrange(a as int, a + p));
                    assert(record_digest_text(t) =~= line@.subrange(a + p + 6, b as int));
                }
                let user = line.substring_char(a, a + p);
                let digest_text = line.substring_char(a + p + 6, b);
                match decode_base64(digest_text.as_bytes()) {
                    Err(_) => Err(
                        Error::InvalidPasswordString { path_string: origin.to_owned(), line: index },
                    ),
                    Ok(digest) => self.add(user, digest),
                }
            },
        }
    }

    /// Loads a whole htpasswd source, line by line, numbering lines from 0
    /// and counting blank ones. The first faulty line ends the load, and no
    /// store is returned then.
    pub fn from_lines(origin: &str, lines: &[String]) -> (r: Result<HtpasswdDatabase, Error>)
        ensures
            match load(lines@.map_values(|l: String| l@)) {
                Ok(m) => r is Ok && r->Ok_0.wf() && r->Ok_0@ == m,
                Err(f) => r is Err && r->Err_0.reports(origin@, f),
            },
    {
        let ghost texts = lines@.map_values(|l: String| l@);
        let mut db = HtpasswdDatabase::new();
        let mut i: usize = 0;
        assert(texts.take(0) =~= Seq::<Seq<char>>::empty());
        while i < lines.len()
            invariant
                i <= lines@.len() == texts.len(),
                texts == lines@.map_values(|l: String| l@),
                db.wf(),
                load(texts.take(i as int)) == Ok::<Map<Seq<char>, Seq<u8>>, LoadFault>(db@),
            decreases lines@.len() - i,
        {
            assert(texts.take(i + 1).drop_last() =~= texts.take(i as int));
            assert(texts.take(i + 1).last() == lines@[i as int]@);
            match db.add_line(origin, i, lines[i].as_str()) {
                Ok(()) => {},
                Err(e) => {
                    proof {
                        lemma_fault_persists(texts, i + 1);
                    }
                    return Err(e);
                },
            }
            i = i + 1;
        }
        assert(texts.take(i as int) =~= texts);
        Ok(db)
    }
}

} // verus!
