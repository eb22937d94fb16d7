//! Canonical JSON (RFC 8785) for the records that are sealed: strings are encoded by
//! serde_jcs, integers and booleans here; arrays and objects are framed here, object members
//! ordered by their encoded keys.
use vstd::prelude::*;


verus! {

/// `,`
pub const COMMA: u8 = 0x2c;
/// `:`
pub const COLON: u8 = 0x3a;
/// `[`
pub const OPEN_BRACKET: u8 = 0x5b;
/// `]`
pub const CLOSE_BRACKET: u8 = 0x5d;
/// `{`
pub const OPEN_BRACE: u8 = 0x7b;
/// `}`
pub const CLOSE_BRACE: u8 = 0x7d;

#[verifier::external_type_specification]
#[verifier::external_body]
pub struct ExJsonError(serde_json::Error);

/// The RFC 8785 text of a JSON string holding `s`, quotes included.
pub uninterp spec fn jcs_string_of(s: Seq<char>) -> Seq<u8>;

/// Relies on `serde_jcs::to_vec` applied to a string: its canonical JSON encoding, which
/// depends on the characters alone. Written into a `Vec`, a string cannot fail to serialize.
#[verifier::external_body]
fn jcs_string(s: &str) -> (r: Result<Vec<u8>, serde_json::Error>)
    ensures
        r is Ok,
        r->Ok_0@ == jcs_string_of(s@),
{
    serde_jcs::to_vec(s)
}

/// The decimal digits of `n`, most significant first, as ASCII bytes.
pub open spec fn decimal(n: nat) -> Seq<u8>
    decreases n,
{
    if n < 10 {
        seq![(48 + n) as u8]
    } else {
        decimal(n / 10).push((48 + n % 10) as u8)
    }
}

/// `a` sorts strictly before `b`, byte by byte, a proper prefix first.
pub open spec fn bytes_lt(a: Seq<u8>, b: Seq<u8>) -> bool {
    exists|i: int|
        0 <= i <= a.len() && i <= b.len() && #[trigger] a.take(i) == b.take(i) && ((i == a.len()
            && i < b.len()) || (i < a.len() && i < b.len() && a[i] < b[i]))
}

/// `items` separated by commas.
pub open spec fn comma_join(items: Seq<Seq<u8>>) -> Seq<u8>
    decreases items.len(),
{
    if items.len() == 0 {
        Seq::empty()
    } else if items.len() == 1 {
        items[0]
    } else {
        comma_join(items.drop_last()) + seq![COMMA] + items.last()
    }
}

/// `m` put into the sorted sequence `s`, after every member whose key is not greater.
pub open spec fn insert_member(m: (Seq<u8>, Seq<u8>), s: Seq<(Seq<u8>, Seq<u8>)>) -> Seq<
    (Seq<u8>, Seq<u8>),
>
    decreases s.len(),
{
    if s.len() == 0 {
        seq![m]
    } else if bytes_lt(m.0, s[0].0) {
        seq![m] + s
    } else {
        seq![s[0]] + insert_member(m, s.drop_first())
    }
}

/// The members ordered by their encoded keys.
pub open spec fn sort_members(s: Seq<(Seq<u8>, Seq<u8>)>) -> Seq<(Seq<u8>, Seq<u8>)>
    decreases s.len(),
{
    if s.len() == 0 {
        s
    } else {
        insert_member(s.last(), sort_members(s.drop_last()))
    }
}

/// A JSON array of already encoded items.
pub open spec fn json_array(items: Seq<Seq<u8>>) -> Seq<u8> {
    seq![OPEN_BRACKET] + comma_join(items) + seq![CLOSE_BRACKET]
}

/// A JSON object of already encoded keys and values, members ordered by key.
pub open spec fn json_object(members: Seq<(Seq<u8>, Seq<u8>)>) -> Seq<u8> {
    let sorted = sort_members(members);
    seq![OPEN_BRACE] + comma_join(
        Seq::new(sorted.len(), |i: int| sorted[i].0 + seq![COLON] + sorted[i].1),
    ) + seq![CLOSE_BRACE]
}

/// The canonical text of an array of strings.
pub open spec fn canonical_strings(items: Seq<Seq<char>>) -> Seq<u8> {
    json_array(Seq::new(items.len(), |i: int| jcs_string_of(items[i])))
}

/// The canonical text of an object with the given keys and encoded values.
pub open spec fn canonical_object(members: Seq<(Seq<char>, Seq<u8>)>) -> Seq<u8> {
    json_object(Seq::new(members.len(), |i: int| (jcs_string_of(members[i].0), members[i].1)))
}

pub open spec fn canonical_bool(b: bool) -> Seq<u8> {
    // "true" and "false" in ASCII
    if b {
        seq![0x74u8, 0x72, 0x75, 0x65]
    } else {
        seq![0x66u8, 0x61, 0x6c, 0x73, 0x65]
    }
}

/// The canonical text of a string.
pub fn encode_str(s: &str) -> (r: Vec<u8>)
    ensures
        r@ == jcs_string_of(s@),
{
    match jcs_string(s) {
        Ok(b) => b,
        Err(_) => Vec::new(),
    }
}

/// The canonical text of an unsigned integer: its decimal digits.
pub fn encode_u64(n: u64) -> (r: Vec<u8>)
    ensures
        r@ == decimal(n as nat),
    decreases n,
{
    if n < 10 {
        let mut v: Vec<u8> = Vec::new();
        v.push((48 + n) as u8);
        assert(v@ =~= decimal(n as nat));
        v
    } else {
        let mut v = encode_u64(n / 10);
        v.push((48 + n % 10) as u8);
        v
    }
}

/// The canonical text of a boolean.
pub fn encode_bool(b: bool) -> (r: Vec<u8>)
    ensures
        r@ == canonical_bool(b),
{
    let mut v: Vec<u8> = Vec::new();
    if b {
        // "true"
        v.push(0x74);
        v.push(0x72);
        v.push(0x75);
        v.push(0x65);
    } else {
        // "false"
        v.push(0x66);
        v.push(0x61);
        v.push(0x6c);
        v.push(0x73);
        v.push(0x65);
    }
    assert(v@ =~= canonical_bool(b));
    v
}

fn append(out: &mut Vec<u8>, b: &Vec<u8>)
    ensures
        final(out)@ == old(out)@ + b@,
{
    let ghost base = out@;
    let mut i: usize = 0;
    while i < b.len()
        invariant
            i <= b@.len(),
            out@ == base + b@.take(i as int),
        decreases b.len() - i,
    {
        out.push(b[i]);
        i += 1;
        assert(out@ =~= base + b@.take(i as int));
    }
    assert(b@.take(b@.len() as int) =~= b@);
}

/// The canonical text of an array of strings.
pub fn encode_str_array(items: &Vec<String>) -> (r: Vec<u8>)
    ensures
        r@ == canonical_strings(items@.map_values(|s: String| s@)),
{
    let ghost texts = items@.map_values(|s: String| s@);
    let ghost parts: Seq<Seq<u8>> = Seq::empty();
    let mut out: Vec<u8> = Vec::new();
    out.push(OPEN_BRACKET);
    let mut i: usize = 0;
    while i < items.len()
        invariant
            i <= items@.len(),
            texts == items@.map_values(|s: String| s@),
            parts.len() == i,
            forall|k: int| 0 <= k < i ==> jcs_string_of(texts[k]) == #[trigger] parts[k],
            out@ == seq![OPEN_BRACKET] + comma_join(parts),
        decreases items.len() - i,
    {
        let b = encode_str(items[i].as_str());
        if i > 0 {
            out.push(COMMA);
        }
        append(&mut out, &b);
        proof {
            let np = parts.push(b@);
            assert(np.drop_last() =~= parts);
            assert(out@ =~= seq![OPEN_BRACKET] + comma_join(np));
            parts = np;
        }
        i += 1;
    }
    out.push(CLOSE_BRACKET);
    proof {
        assert(parts =~= Seq::new(texts.len(), |k: int| jcs_string_of(texts[k])));
        assert(out@ =~= json_array(parts));
    }
    out
}

/// A member of an object under construction: encoded key and encoded value.
struct Member {
    key: Vec<u8>,
    value: Vec<u8>,
}

spec fn member_seq(v: Seq<Member>) -> Seq<(Seq<u8>, Seq<u8>)> {
    Seq::new(v.len(), |i: int| (v[i].key@, v[i].value@))
}

/// Whether `a` sorts strictly before `b`.
fn bytes_less(a: &Vec<u8>, b: &Vec<u8>) -> (r: bool)
    ensures
        r == bytes_lt(a@, b@),
{
    let mut i: usize = 0;
    while i < a.len() && i < b.len()
        invariant
            i <= a@.len(),
            i <= b@.len(),
            a@.take(i as int) == b@.take(i as int),
        decreases a.len() - i,
    {
        if a[i] != b[i] {
            let r = a[i] < b[i];
            proof {
                if r {
                    assert(a@.take(i as int) == b@.take(i as int));
                } else {
                    assert forall|k: int|
                        0 <= k <= a@.len() && k <= b@.len() && #[trigger] a@.take(k) == b@.take(
                            k,
                        ) implies !((k == a@.len() && k < b@.len()) || (k < a@.len() && k
                        < b@.len() && a@[k] < b@[k])) by {
                        if k > i {
                            assert(a@.take(k)[i as int] == b@.take(k)[i as int]);
                        } else if k < i {
                            assert(a@.take(i as int)[k] == b@.take(i as int)[k]);
                        }
                    }
                }
            }
            return r;
        }
        assert(a@.take(i + 1) =~= a@.take(i as int).push(a@[i as int]));
        assert(b@.take(i + 1) =~= b@.take(i as int).push(b@[i as int]));
        i += 1;
    }
    let r = a.len() < b.len();
    proof {
        if !r {
            assert forall|k: int|
                0 <= k <= a@.len() && k <= b@.len() && #[trigger] a@.take(k) == b@.take(
                    k,
                ) implies !((k == a@.len() && k < b@.len()) || (k < a@.len() && k < b@.len()
                && a@[k] < b@[k])) by {
                if k < i {
                    assert(a@.take(i as int)[k] == b@.take(i as int)[k]);
                }
            }
        }
    }
    r
}

proof fn lemma_insert_member(m: (Seq<u8>, Seq<u8>), s: Seq<(Seq<u8>, Seq<u8>)>, j: int)
    requires
        0 <= j <= s.len(),
        forall|k: int| 0 <= k < j ==> !bytes_lt(m.0, #[trigger] s[k].0),
        j < s.len() ==> bytes_lt(m.0, s[j].0),
    ensures
        insert_member(m, s) == s.insert(j, m),
    decreases s.len(),
{
    if s.len() == 0 {
        assert(s.insert(j, m) =~= seq![m]);
    } else if j == 0 {
        assert(seq![m] + s =~= s.insert(0, m));
    } else {
        assert(!bytes_lt(m.0, s[0].0));
        let t = s.drop_first();
        assert forall|k: int| 0 <= k < j - 1 implies !bytes_lt(m.0, #[trigger] t[k].0) by {
            assert(t[k] == s[k + 1]);
        }
        lemma_insert_member(m, t, j - 1);
        assert(seq![s[0]] + t.insert(j - 1, m) =~= s.insert(j, m));
    }
}

/// The members ordered by encoded key, in the order `sort_members` gives.
fn sort_member_vec(ms: Vec<Member>) -> (r: Vec<Member>)
    ensures
        member_seq(r@) == sort_members(member_seq(ms@)),
{
    let ghost orig = member_seq(ms@);
    let mut rest = ms;
    let mut out: Vec<Member> = Vec::new();
    let mut i: usize = 0;
    let n = rest.len();
    assert(orig.take(0) =~= Seq::<(Seq<u8>, Seq<u8>)>::empty());
    while i < n
        invariant
            n == orig.len(),
            i <= n,
            member_seq(rest@) == orig.skip(i as int),
            member_seq(out@) == sort_members(orig.take(i as int)),
        decreases n - i,
    {
        let ghost before = rest@;
        assert(member_seq(before).len() == before.len());
        assert(member_seq(before)[0] == orig[i as int]);
        let m = rest.remove(0);
        assert forall|k: int| 0 <= k < rest@.len() implies #[trigger] member_seq(rest@)[k] == orig.skip(i + 1)[k] by {
            assert(rest@[k] == before[k + 1]);
            assert(member_seq(before)[k + 1] == orig.skip(i as int)[k + 1]);
        }
        assert(member_seq(rest@) =~= orig.skip(i + 1));
        let ghost sorted = member_seq(out@);
        let mut j: usize = 0;
        while j < out.len() && !bytes_less(&m.key, &out[j].key)
            invariant
                j <= out@.len(),
                sorted == member_seq(out@),
                forall|k: int| 0 <= k < j ==> !bytes_lt(m.key@, #[trigger] sorted[k].0),
            decreases out.len() - j,
        {
            j += 1;
        }
        proof {
            lemma_insert_member((m.key@, m.value@), sorted, j as int);
            assert(orig.take(i + 1).drop_last() =~= orig.take(i as int));
            assert(orig.take(i + 1).last() == (m.key@, m.value@));
        }
        out.insert(j, m);
        assert(member_seq(out@) =~= sorted.insert(j as int, (m.key@, m.value@)));
        i += 1;
    }
    assert(orig.take(n as int) =~= orig);
    out
}

/// An object under construction: its keys and encoded values in the order they were added.
pub struct ObjectWriter {
    members: Vec<Member>,
    added: Ghost<Seq<(Seq<char>, Seq<u8>)>>,
}

impl ObjectWriter {
    /// The keys and values added so far.
    pub closed spec fn pending(&self) -> Seq<(Seq<char>, Seq<u8>)> {
        self.added@
    }

    pub closed spec fn inv(&self) -> bool {
        member_seq(self.members@) == Seq::new(
            self.added@.len(),
            |i: int| (jcs_string_of(self.added@[i].0), self.added@[i].1),
        )
    }

    /// An object with no members.
    pub fn new() -> (r: ObjectWriter)
        ensures
            r.inv(),
            r.pending() == Seq::<(Seq<char>, Seq<u8>)>::empty(),
    {
        let r = ObjectWriter { members: Vec::new(), added: Ghost(Seq::empty()) };
        assert(member_seq(r.members@) =~= Seq::new(
            r.added@.len(),
            |i: int| (jcs_string_of(r.added@[i].0), r.added@[i].1),
        ));
        r
    }

    /// Adds the member `key` with its encoded value.
    pub fn add(&mut self, key: &str, value: Vec<u8>)
        requires
            old(self).inv(),
        ensures
            final(self).inv(),
            final(self).pending() == old(self).pending().push((key@, value@)),
    {
        let ghost before = self.added@;
        let ghost after = before.push((key@, value@));
        let ghost old_members = self.members@;
        let ghost prior = member_seq(old_members);
        assert(prior.len() == old_members.len());
        self.added = Ghost(after);
        let k = encode_str(key);
        self.members.push(Member { key: k, value });
        assert forall|i: int| 0 <= i < before.len() implies #[trigger] member_seq(self.members@)[i] == prior[i] by {
            assert(self.members@[i] == old_members[i]);
        }
        assert(member_seq(self.members@) =~= Seq::new(
            after.len(),
            |i: int| (jcs_string_of(after[i].0), after[i].1),
        ));
    }

    /// The canonical text of the object.
    pub fn finish(self) -> (r: Vec<u8>)
        requires
            self.inv(),
        ensures
            r@ == canonical_object(self.pending()),
    {
        let ghost ms = member_seq(self.members@);
        let sorted = sort_member_vec(self.members);
        let ghost ss = member_seq(sorted@);
        let ghost texts = Seq::new(ss.len(), |i: int| ss[i].0 + seq![COLON] + ss[i].1);
        let mut out: Vec<u8> = Vec::new();
        out.push(OPEN_BRACE);
        let mut i: usize = 0;
        assert(texts.take(0) =~= Seq::<Seq<u8>>::empty());
        while i < sorted.len()
            invariant
                i <= sorted@.len(),
                ss == member_seq(sorted@),
                texts == Seq::new(ss.len(), |i: int| ss[i].0 + seq![COLON] + ss[i].1),
                out@ == seq![OPEN_BRACE] + comma_join(texts.take(i as int)),
            decreases sorted.len() - i,
        {
            if i > 0 {
                out.push(COMMA);
            }
            append(&mut out, &sorted[i].key);
            out.push(COLON);
            append(&mut out, &sorted[i].value);
            proof {
                assert(texts.take(i + 1).drop_last() =~= texts.take(i as int));
                assert(texts.take(i + 1).last() == texts[i as int]);
                assert(texts[i as int] == ss[i as int].0 + seq![COLON] + ss[i as int].1);
                assert(out@ =~= seq![OPEN_BRACE] + comma_join(texts.take(i + 1)));
            }
            i += 1;
        }
        out.push(CLOSE_BRACE);
        assert(texts.take(sorted@.len() as int) =~= texts);
        assert(out@ =~= json_object(ms));
        out
    }
}

} // verus!
