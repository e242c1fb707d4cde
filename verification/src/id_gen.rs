//! Generation of message ids and content ids from a template.
//!
//! Message ids have the form `{u}.{c}@{domain}` and content ids the form
//! `{u}.{c}.{mc}@{domain}`, where `u` is a part unique in the domain (which
//! has to change with each program instance), `c` is the number of the mail
//! the generator is used for and `mc` counts the content ids generated for
//! that mail.
use vstd::prelude::*;
use crate::components::{push_char, ContentId, Domain};
use std::collections::hash_map::DefaultHasher;
use std::hash::Hasher;
use vstd::std_specs::hash::DefaultHasherAdditionalSpecFns;
use crate::error::EncodingError;

verus! {

broadcast use vstd::string::group_string_axioms;

/// The decimal digit for `d < 10`.
pub open spec fn digit_char(d: nat) -> char {
    (d + 48) as char
}

/// The decimal representation of `n`, without leading zeros.
pub open spec fn decimal(n: nat) -> Seq<char>
    decreases n,
{
    if n < 10 {
        seq![digit_char(n)]
    } else {
        decimal(n / 10).push(digit_char(n % 10))
    }
}

/// The message id text `{u}.{c}@{domain}`.
pub open spec fn message_id_text(unique: Seq<char>, mail: nat, domain: Seq<char>) -> Seq<char> {
    unique + seq!['.'] + decimal(mail) + seq!['@'] + domain
}

/// The content id text `{u}.{c}.{mc}@{domain}`.
pub open spec fn content_id_text(unique: Seq<char>, mail: nat, content: nat, domain: Seq<char>) -> Seq<char> {
    unique + seq!['.'] + decimal(mail) + seq!['.'] + decimal(content) + seq!['@'] + domain
}

/// Every char of a decimal representation is a digit.
pub proof fn lemma_decimal_digits(n: nat)
    ensures
        decimal(n).len() >= 1,
        forall|i: int| 0 <= i < decimal(n).len() ==> '0' <= #[trigger] decimal(n)[i] <= '9',
    decreases n,
{
    if n >= 10 {
        lemma_decimal_digits(n / 10);
        assert forall|i: int| 0 <= i < decimal(n).len() implies '0' <= #[trigger] decimal(n)[i] <= '9' by {
            if i < decimal(n / 10).len() {
                assert(decimal(n)[i] == decimal(n / 10)[i]);
            } else {
                assert(decimal(n)[i] == digit_char(n % 10));
            }
        }
    }
}

proof fn lemma_digit_char_injective(a: nat, b: nat)
    requires
        a < 10,
        b < 10,
        digit_char(a) == digit_char(b),
    ensures
        a == b,
{
    assert((digit_char(a) as int) == a + 48);
    assert((digit_char(b) as int) == b + 48);
}

/// Different numbers have different decimal representations.
pub proof fn lemma_decimal_injective(n: nat, m: nat)
    requires
        decimal(n) == decimal(m),
    ensures
        n == m,
    decreases n,
{
    lemma_decimal_digits(n);
    lemma_decimal_digits(m);
    if n < 10 && m < 10 {
        lemma_digit_char_injective(n, m);
    } else if n < 10 {
        lemma_decimal_digits(m / 10);
        assert(decimal(m).len() >= 2);
    } else if m < 10 {
        lemma_decimal_digits(n / 10);
        assert(decimal(n).len() >= 2);
    } else {
        let dn = decimal(n);
        let dm = decimal(m);
        assert(dn.last() == dm.last());
        lemma_digit_char_injective(n % 10, m % 10);
        assert(dn.drop_last() =~= decimal(n / 10));
        assert(dm.drop_last() =~= decimal(m / 10));
        lemma_decimal_injective(n / 10, m / 10);
    }
}

/// `decimal(a) + '@' + tail` determines `a`.
proof fn lemma_decimal_at_injective(a: nat, b: nat, tail: Seq<char>)
    requires
        decimal(a) + seq!['@'] + tail == decimal(b) + seq!['@'] + tail,
    ensures
        a == b,
{
    let sa = decimal(a) + seq!['@'] + tail;
    let sb = decimal(b) + seq!['@'] + tail;
    lemma_decimal_digits(a);
    lemma_decimal_digits(b);
    let la = decimal(a).len() as int;
    let lb = decimal(b).len() as int;
    if la < lb {
        assert(sa[la] == '@');
        assert(sb[la] == decimal(b)[la]);
    } else if lb < la {
        assert(sb[lb] == '@');
        assert(sa[lb] == decimal(a)[lb]);
    } else {
        assert(decimal(a) =~= sa.subrange(0, la));
        assert(decimal(b) =~= sb.subrange(0, lb));
        lemma_decimal_injective(a, b);
    }
}

/// A generator of message and content ids for one mail.
#[derive(Debug)]
pub struct SimpleIdGen {
    domain: String,
    part_unique_in_domain: String,
    use_mail_id: usize,
    cid_counter: usize,
}

pub struct SimpleIdGenView {
    pub domain: Seq<char>,
    pub part_unique_in_domain: Seq<char>,
    pub use_mail_id: nat,
    pub cid_counter: nat,
}

impl View for SimpleIdGen {
    type V = SimpleIdGenView;

    closed spec fn view(&self) -> SimpleIdGenView {
        SimpleIdGenView {
            domain: self.domain@,
            part_unique_in_domain: self.part_unique_in_domain@,
            use_mail_id: self.use_mail_id as nat,
            cid_counter: self.cid_counter as nat,
        }
    }
}

/// Appends the decimal representation of `n`.
pub fn push_decimal(out: &mut String, n: usize)
    ensures
        final(out)@ == old(out)@ + decimal(n as nat),
    decreases n,
{
    if n >= 10 {
        push_decimal(out, n / 10);
    }
    let d: u8 = (n % 10) as u8;
    let c: char = (48u8 + d) as char;
    assert(c == digit_char((n % 10) as nat));
    push_char(out, c);
    assert(decimal(n as nat) == if n < 10 { seq![digit_char(n as nat)] } else { decimal((n / 10) as nat).push(digit_char((n % 10) as nat)) });
}

/// Appends a string.
fn push_text(out: &mut String, s: &str)
    ensures
        final(out)@ == old(out)@ + s@,
{
    let len = s.unicode_len();
    let mut i: usize = 0;
    while i < len
        invariant
            len == s@.len(),
            i <= len,
            out@ == old(out)@ + s@.subrange(0, i as int),
        decreases len - i,
    {
        let c = s.get_char(i);
        push_char(out, c);
        assert(s@.subrange(0, i + 1) =~= s@.subrange(0, i as int).push(c));
        i += 1;
    }
    assert(s@.subrange(0, len as int) =~= s@);
}

impl SimpleIdGen {
    /// A generator for the mail numbered `use_mail_id`; the domain has to be
    /// ascii (internationalized domains would need punycode, which is not
    /// supported), else `InvalidTextEncoding` is returned.
    ///
    /// `use_mail_id` has to differ for every generator made with the same
    /// unique part, e.g. by taking it from a process wide counter.
    pub fn new(domain: Domain, part_unique_in_domain: String, use_mail_id: usize) -> (r: Result<Self, EncodingError>)
        ensures
            r is Ok <==> domain.item() is Ascii,
            r matches Err(e) ==> e == EncodingError::InvalidTextEncoding,
            r matches Ok(g) ==> g@.domain == domain.item().text()
                && g@.part_unique_in_domain == part_unique_in_domain@
                && g@.use_mail_id == use_mail_id
                && g@.cid_counter == 0,
    {
        let text = domain.as_str();
        let ascii = domain.is_ascii();
        if !ascii {
            return Err(EncodingError::InvalidTextEncoding);
        }
        Ok(SimpleIdGen {
            domain: text.to_owned(),
            part_unique_in_domain,
            use_mail_id,
            cid_counter: 0,
        })
    }

    /// A generator for another mail (numbered `use_mail_id`) with the same
    /// domain and unique part; its content id counter starts again at 0.
    pub fn for_new_mail(&self, use_mail_id: usize) -> (r: Self)
        ensures
            r@.domain == self@.domain,
            r@.part_unique_in_domain == self@.part_unique_in_domain,
            r@.use_mail_id == use_mail_id,
            r@.cid_counter == 0,
    {
        SimpleIdGen {
            domain: self.domain.clone(),
            part_unique_in_domain: self.part_unique_in_domain.clone(),
            use_mail_id,
            cid_counter: 0,
        }
    }

    /// The message id `{u}.{c}@{domain}`.
    pub fn get_message_id(&self) -> (r: String)
        ensures
            r@ == message_id_text(self@.part_unique_in_domain, self@.use_mail_id, self@.domain),
    {
        let mut out = String::new();
        push_text(&mut out, self.part_unique_in_domain.as_str());
        push_char(&mut out, '.');
        push_decimal(&mut out, self.use_mail_id);
        push_char(&mut out, '@');
        push_text(&mut out, self.domain.as_str());
        out
    }

    /// A new content id `{u}.{c}.{mc}@{domain}`, where `mc` is the current
    /// value of the counter, which is then increased (wrapping around).
    pub fn generate_content_id(&mut self) -> (r: ContentId)
        ensures
            r@ == content_id_text(
                old(self)@.part_unique_in_domain,
                old(self)@.use_mail_id,
                old(self)@.cid_counter,
                old(self)@.domain,
            ),
            final(self)@.domain == old(self)@.domain,
            final(self)@.part_unique_in_domain == old(self)@.part_unique_in_domain,
            final(self)@.use_mail_id == old(self)@.use_mail_id,
            final(self)@.cid_counter == (if old(self)@.cid_counter < usize::MAX { old(self)@.cid_counter + 1 } else { 0 }),
    {
        let mc = self.cid_counter;
        self.cid_counter = self.cid_counter.wrapping_add(1);
        let mut out = String::new();
        push_text(&mut out, self.part_unique_in_domain.as_str());
        push_char(&mut out, '.');
        push_decimal(&mut out, self.use_mail_id);
        push_char(&mut out, '.');
        push_decimal(&mut out, mc);
        push_char(&mut out, '@');
        push_text(&mut out, self.domain.as_str());
        ContentId::new(out)
    }
}

/// The lower case hex digit for `d < 16`.
pub open spec fn hex_digit_char(d: nat) -> char {
    if d < 10 {
        (d + 48) as char
    } else {
        (d + 87) as char
    }
}

/// The lower case hex representation of `n`, without leading zeros.
pub open spec fn hex(n: nat) -> Seq<char>
    decreases n,
{
    if n < 16 {
        seq![hex_digit_char(n)]
    } else {
        hex(n / 16).push(hex_digit_char(n % 16))
    }
}

/// The id text `{hash as hex}@{domain}`.
pub open spec fn hashed_id_text(hash: u64, domain: Seq<char>) -> Seq<char> {
    hex(hash as nat) + seq!['@'] + domain
}

/// Appends the lower case hex representation of `n`.
pub fn push_hex(out: &mut String, n: u64)
    ensures
        final(out)@ == old(out)@ + hex(n as nat),
    decreases n,
{
    if n >= 16 {
        push_hex(out, n / 16);
    }
    let d: u8 = (n % 16) as u8;
    let c: char = if d < 10 { (48u8 + d) as char } else { (87u8 + d) as char };
    assert(c == hex_digit_char((n % 16) as nat));
    push_char(out, c);
    assert(hex(n as nat) == if n < 16 { seq![hex_digit_char(n as nat)] } else { hex((n / 16) as nat).push(hex_digit_char((n % 16) as nat)) });
}

/// The `k` lowest bytes of `n`, least significant first.
pub open spec fn le_bytes(n: nat, k: nat) -> Seq<u8>
    decreases k,
{
    if k == 0 {
        Seq::empty()
    } else {
        seq![(n % 256) as u8] + le_bytes(n / 256, (k - 1) as nat)
    }
}

/// The eight bytes of a number hashed into an id, least significant first.
pub open spec fn number_bytes(n: nat) -> Seq<u8> {
    le_bytes(n, 8)
}

/// What the hash of a message id is taken over: the utf-8 bytes of the unique
/// part, then the bytes of the mail number.
pub open spec fn message_id_hash_input(g: SimpleIdGenView) -> Seq<Seq<u8>> {
    seq![crate::components::utf8(g.part_unique_in_domain), number_bytes(g.use_mail_id)]
}

/// What the hash of a content id is taken over: that of the message id, then the
/// bytes of the content id counter.
pub open spec fn content_id_hash_input(g: SimpleIdGenView) -> Seq<Seq<u8>> {
    message_id_hash_input(g).push(number_bytes(g.cid_counter))
}

/// The message id text of a hashed id generator.
pub open spec fn hashed_message_id_text(g: SimpleIdGenView) -> Seq<char> {
    hashed_id_text(DefaultHasher::spec_finish(message_id_hash_input(g)), g.domain)
}

/// The content id text of a hashed id generator (for its current counter).
pub open spec fn hashed_content_id_text(g: SimpleIdGenView) -> Seq<char> {
    hashed_id_text(DefaultHasher::spec_finish(content_id_hash_input(g)), g.domain)
}

/// `256^k`.
pub open spec fn pow256(k: nat) -> nat
    decreases k,
{
    if k == 0 {
        1
    } else {
        256 * pow256((k - 1) as nat)
    }
}

/// Numbers below `256^k` with the same `k` lowest bytes are equal.
pub proof fn lemma_le_bytes_injective(a: nat, b: nat, k: nat)
    requires
        a < pow256(k),
        b < pow256(k),
        le_bytes(a, k) == le_bytes(b, k),
    ensures
        a == b,
    decreases k,
{
    if k > 0 {
        let p = pow256((k - 1) as nat);
        assert(le_bytes(a, k)[0] == (a % 256) as u8);
        assert(le_bytes(b, k)[0] == (b % 256) as u8);
        assert(le_bytes(a / 256, (k - 1) as nat) =~= le_bytes(a, k).subrange(1, le_bytes(a, k).len() as int));
        assert(le_bytes(b / 256, (k - 1) as nat) =~= le_bytes(b, k).subrange(1, le_bytes(b, k).len() as int));
        assert(a / 256 < p) by (nonlinear_arith)
            requires
                a < 256 * p,
        ;
        assert(b / 256 < p) by (nonlinear_arith)
            requires
                b < 256 * p,
        ;
        lemma_le_bytes_injective(a / 256, b / 256, (k - 1) as nat);
        assert(a == 256 * (a / 256) + a % 256) by (nonlinear_arith);
        assert(b == 256 * (b / 256) + b % 256) by (nonlinear_arith);
    }
}

/// Hashed ids of generators for different mails (with the same unique part) are
/// hashes over different inputs, and so are content ids of one mail with
/// different counter values. (Whether the hashes differ is up to the hasher.)
pub proof fn lemma_hash_inputs_differ(a: SimpleIdGenView, b: SimpleIdGenView)
    requires
        a.part_unique_in_domain == b.part_unique_in_domain,
        a.use_mail_id < pow256(8),
        b.use_mail_id < pow256(8),
        a.cid_counter < pow256(8),
        b.cid_counter < pow256(8),
    ensures
        a.use_mail_id != b.use_mail_id ==> message_id_hash_input(a) != message_id_hash_input(b),
        a.use_mail_id != b.use_mail_id || a.cid_counter != b.cid_counter ==> content_id_hash_input(a)
            != content_id_hash_input(b),
{
    if message_id_hash_input(a) == message_id_hash_input(b) {
        assert(message_id_hash_input(a)[1] == number_bytes(a.use_mail_id));
        assert(message_id_hash_input(b)[1] == number_bytes(b.use_mail_id));
        lemma_le_bytes_injective(a.use_mail_id, b.use_mail_id, 8);
    }
    if content_id_hash_input(a) == content_id_hash_input(b) {
        assert(content_id_hash_input(a)[1] == number_bytes(a.use_mail_id));
        assert(content_id_hash_input(b)[1] == number_bytes(b.use_mail_id));
        assert(content_id_hash_input(a)[2] == number_bytes(a.cid_counter));
        assert(content_id_hash_input(b)[2] == number_bytes(b.cid_counter));
        lemma_le_bytes_injective(a.use_mail_id, b.use_mail_id, 8);
        lemma_le_bytes_injective(a.cid_counter, b.cid_counter, 8);
    }
}

/// The eight bytes of `n`, least significant first.
fn number_to_bytes(n: usize) -> (r: Vec<u8>)
    ensures
        r@ == number_bytes(n as nat),
{
    let mut out: Vec<u8> = Vec::new();
    let mut v: u64 = n as u64;
    let mut i: usize = 0;
    assert(out@ + le_bytes(v as nat, 8) =~= number_bytes(n as nat));
    while i < 8
        invariant
            i <= 8,
            out@ + le_bytes(v as nat, (8 - i) as nat) == number_bytes(n as nat),
        decreases 8 - i,
    {
        let ghost old_out = out@;
        let ghost k = (8 - i) as nat;
        out.push((v % 256) as u8);
        proof {
            assert(le_bytes(v as nat, k) == seq![(v as nat % 256) as u8] + le_bytes(v as nat / 256, (k - 1) as nat));
            assert(out@ + le_bytes((v / 256) as nat, (k - 1) as nat) =~= old_out + le_bytes(v as nat, k));
        }
        v = v / 256;
        i += 1;
    }
    assert(out@ + le_bytes(v as nat, 0) =~= out@);
    out
}

/// A generator of message and content ids for one mail whose left part is a
/// hash (`DefaultHasher`) of the unique part and the numbers of `SimpleIdGen`
/// (the mail number, and for content ids the content id counter), which shows
/// less than the numbers. The numbers are hashed as eight bytes, least
/// significant first.
#[derive(Debug)]
pub struct HashedIdGen {
    id_gen: SimpleIdGen,
}

impl View for HashedIdGen {
    type V = SimpleIdGenView;

    closed spec fn view(&self) -> SimpleIdGenView {
        self.id_gen@
    }
}

impl HashedIdGen {
    /// A generator for the mail numbered `use_mail_id`; fails as
    /// `SimpleIdGen::new` does (for a domain which is not ascii).
    pub fn new(domain: Domain, part_unique_in_domain: String, use_mail_id: usize) -> (r: Result<Self, EncodingError>)
        ensures
            r is Ok <==> domain.item() is Ascii,
            r matches Err(e) ==> e == EncodingError::InvalidTextEncoding,
            r matches Ok(g) ==> g@.domain == domain.item().text()
                && g@.part_unique_in_domain == part_unique_in_domain@
                && g@.use_mail_id == use_mail_id
                && g@.cid_counter == 0,
    {
        match SimpleIdGen::new(domain, part_unique_in_domain, use_mail_id) {
            Ok(id_gen) => Ok(HashedIdGen { id_gen }),
            Err(e) => Err(e),
        }
    }

    /// A generator for another mail (numbered `use_mail_id`) with the same
    /// domain and unique part.
    pub fn for_new_mail(&self, use_mail_id: usize) -> (r: Self)
        ensures
            r@.domain == self@.domain,
            r@.part_unique_in_domain == self@.part_unique_in_domain,
            r@.use_mail_id == use_mail_id,
            r@.cid_counter == 0,
    {
        HashedIdGen { id_gen: self.id_gen.for_new_mail(use_mail_id) }
    }

    /// The message id `{hash}@{domain}`, the hash (in hex) being that of the
    /// unique part and the mail number.
    pub fn get_message_id(&self) -> (r: String)
        ensures
            r@ == hashed_message_id_text(self@),
    {
        let mut hasher = DefaultHasher::new();
        hasher.write(self.id_gen.part_unique_in_domain.as_str().as_bytes());
        let number = number_to_bytes(self.id_gen.use_mail_id);
        hasher.write(number.as_slice());
        assert(hasher@ =~= message_id_hash_input(self@));
        let hash = hasher.finish();
        let mut out = String::new();
        assert(out@ =~= Seq::<char>::empty());
        push_hex(&mut out, hash);
        push_char(&mut out, '@');
        push_text(&mut out, self.id_gen.domain.as_str());
        assert(out@ =~= hashed_id_text(hash, self@.domain));
        out
    }

    /// A new content id `{hash}@{domain}`, the hash (in hex) being that of the
    /// unique part, the mail number and the content id counter, which is then
    /// increased (wrapping around).
    pub fn generate_content_id(&mut self) -> (r: ContentId)
        ensures
            r@ == hashed_content_id_text(old(self)@),
            final(self)@.domain == old(self)@.domain,
            final(self)@.part_unique_in_domain == old(self)@.part_unique_in_domain,
            final(self)@.use_mail_id == old(self)@.use_mail_id,
            final(self)@.cid_counter == (if old(self)@.cid_counter < usize::MAX { old(self)@.cid_counter + 1 } else { 0 }),
    {
        let mc = self.id_gen.cid_counter;
        self.id_gen.cid_counter = mc.wrapping_add(1);
        let mut hasher = DefaultHasher::new();
        hasher.write(self.id_gen.part_unique_in_domain.as_str().as_bytes());
        let number = number_to_bytes(self.id_gen.use_mail_id);
        hasher.write(number.as_slice());
        let counter = number_to_bytes(mc);
        hasher.write(counter.as_slice());
        assert(hasher@ =~= content_id_hash_input(old(self)@));
        let hash = hasher.finish();
        let mut out = String::new();
        assert(out@ =~= Seq::<char>::empty());
        push_hex(&mut out, hash);
        push_char(&mut out, '@');
        push_text(&mut out, self.id_gen.domain.as_str());
        assert(out@ =~= hashed_id_text(hash, old(self)@.domain));
        ContentId::new(out)
    }
}

/// A generator's message id stays the same, and generators for different
/// mails (with the same unique part and domain) have different message ids.
pub proof fn lemma_message_ids_differ_between_mails(unique: Seq<char>, a: nat, b: nat, domain: Seq<char>)
    requires
        a != b,
    ensures
        message_id_text(unique, a, domain) != message_id_text(unique, b, domain),
{
    let prefix = unique + seq!['.'];
    let ta = decimal(a) + seq!['@'] + domain;
    let tb = decimal(b) + seq!['@'] + domain;
    assert(message_id_text(unique, a, domain) =~= prefix + ta);
    assert(message_id_text(unique, b, domain) =~= prefix + tb);
    if message_id_text(unique, a, domain) == message_id_text(unique, b, domain) {
        assert(ta =~= (prefix + ta).subrange(prefix.len() as int, (prefix + ta).len() as int));
        assert(tb =~= (prefix + tb).subrange(prefix.len() as int, (prefix + tb).len() as int));
        lemma_decimal_at_injective(a, b, domain);
    }
}

/// Content ids generated for one mail with different counter values differ.
pub proof fn lemma_content_ids_differ(unique: Seq<char>, mail: nat, a: nat, b: nat, domain: Seq<char>)
    requires
        a != b,
    ensures
        content_id_text(unique, mail, a, domain) != content_id_text(unique, mail, b, domain),
{
    let prefix = unique + seq!['.'] + decimal(mail) + seq!['.'];
    let ta = decimal(a) + seq!['@'] + domain;
    let tb = decimal(b) + seq!['@'] + domain;
    assert(content_id_text(unique, mail, a, domain) =~= prefix + ta);
    assert(content_id_text(unique, mail, b, domain) =~= prefix + tb);
    if content_id_text(unique, mail, a, domain) == content_id_text(unique, mail, b, domain) {
        assert(ta =~= (prefix + ta).subrange(prefix.len() as int, (prefix + ta).len() as int));
        assert(tb =~= (prefix + tb).subrange(prefix.len() as int, (prefix + tb).len() as int));
        lemma_decimal_at_injective(a, b, domain);
    }
}

} // verus!

verus! {

impl SimpleIdGen {
    /// The message id `{u}.{c}@{domain}` as a header component, its local part
    /// being the text `{u}.{c}` as it is.
    pub fn message_id(&self) -> (r: crate::components::MessageID)
        ensures
            r.email.local_part.item().text() == self@.part_unique_in_domain + seq!['.'] + decimal(self@.use_mail_id),
            r.email.domain.item().text() == self@.domain,
    {
        let mut local = String::new();
        assert(local@ =~= Seq::<char>::empty());
        push_text(&mut local, self.part_unique_in_domain.as_str());
        push_char(&mut local, '.');
        push_decimal(&mut local, self.use_mail_id);
        assert(local@ == self@.part_unique_in_domain + seq!['.'] + decimal(self@.use_mail_id));
        let local_part = crate::components::LocalPart::from_template(local);
        let domain = Domain::from_input(self.domain.clone());
        crate::components::MessageID { email: crate::components::Email { local_part, domain } }
    }
}

impl HashedIdGen {
    /// The message id `{hash}@{domain}` as a header component, its local part
    /// being the hash (in hex).
    pub fn message_id(&self) -> (r: crate::components::MessageID)
        ensures
            r.email.local_part.item().text() == hex(DefaultHasher::spec_finish(message_id_hash_input(self@)) as nat),
            r.email.domain.item().text() == self@.domain,
    {
        let mut hasher = DefaultHasher::new();
        hasher.write(self.id_gen.part_unique_in_domain.as_str().as_bytes());
        let number = number_to_bytes(self.id_gen.use_mail_id);
        hasher.write(number.as_slice());
        assert(hasher@ =~= message_id_hash_input(self@));
        let hash = hasher.finish();
        let mut local = String::new();
        assert(local@ =~= Seq::<char>::empty());
        push_hex(&mut local, hash);
        assert(local@ =~= hex(hash as nat));
        let local_part = crate::components::LocalPart::from_template(local);
        let domain = Domain::from_input(self.id_gen.domain.clone());
        crate::components::MessageID { email: crate::components::Email { local_part, domain } }
    }
}

} // verus!
