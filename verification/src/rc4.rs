//! The stream cipher of a connection: a permutation of the 256 byte values
//! that is stirred by the key and then yields one key byte per data byte.

use vstd::prelude::*;

verus! {

/// The state of a cipher as a mathematical value.
pub struct Rc4View {
    /// The permutation.
    pub s: Seq<u8>,
    pub i: u8,
    pub j: u8,
}

/// `s` with the entries at `a` and `b` exchanged.
pub open spec fn swapped(s: Seq<u8>, a: int, b: int) -> Seq<u8> {
    s.update(a, s[b]).update(b, s[a])
}

/// `s` holds each of the 256 byte values exactly once.
pub open spec fn is_permutation(s: Seq<u8>) -> bool {
    &&& s.len() == 256
    &&& forall|a: int, b: int| 0 <= a < b < 256 ==> s[a] != s[b]
}

/// The permutation that maps every byte to itself.
pub open spec fn identity_table() -> Seq<u8> {
    Seq::new(256, |i: int| i as u8)
}

/// The permutation and the running index after the first `n` steps of the
/// key schedule: step `i` adds the entry at `i` and the key byte at
/// `i mod key.len()` to the index, and exchanges the entry at `i` with the
/// one at the index.
pub open spec fn schedule(key: Seq<u8>, n: nat) -> (Seq<u8>, u8)
    recommends
        key.len() >= 1,
        n <= 256,
    decreases n,
{
    if n == 0 {
        (identity_table(), 0u8)
    } else {
        let (s, j) = schedule(key, (n - 1) as nat);
        let i = n - 1;
        let j = ((j + s[i] + key[i % (key.len() as int)]) % 256) as u8;
        (swapped(s, i, j as int), j)
    }
}

impl Rc4View {
    /// The state that the key schedule leaves: the stirred permutation, and
    /// both indices at zero.
    pub open spec fn keyed(key: Seq<u8>) -> Rc4View {
        Rc4View { s: schedule(key, 256).0, i: 0, j: 0 }
    }

    /// The table is a permutation of the byte values.
    pub open spec fn wf(self) -> bool {
        is_permutation(self.s)
    }

    /// The state after one more byte: `i` moves on by one, `j` by the entry
    /// at `i`, and the entries at `i` and `j` are exchanged.
    pub open spec fn next(self) -> Rc4View {
        let i = ((self.i + 1) % 256) as u8;
        let j = ((self.j + self.s[i as int]) % 256) as u8;
        Rc4View { s: swapped(self.s, i as int, j as int), i, j }
    }

    /// The key byte that a state yields: the entry at the sum of the entries
    /// at `i` and `j`.
    pub open spec fn output(self) -> u8 {
        self.s[(self.s[self.i as int] + self.s[self.j as int]) % 256]
    }

    /// The state after `n` more bytes.
    pub open spec fn advance(self, n: nat) -> Rc4View
        decreases n,
    {
        if n == 0 {
            self
        } else {
            self.advance((n - 1) as nat).next()
        }
    }

    /// The next `n` key bytes.
    pub open spec fn keystream(self, n: nat) -> Seq<u8> {
        Seq::new(n, |k: int| self.advance((k + 1) as nat).output())
    }
}

/// Each byte of `data` combined by exclusive or with the byte of `stream` at its place.
pub open spec fn xor_bytes(data: Seq<u8>, stream: Seq<u8>) -> Seq<u8>
    recommends
        stream.len() >= data.len(),
{
    Seq::new(data.len(), |k: int| data[k] ^ stream[k])
}

/// Exchanging two entries of a permutation leaves a permutation.
pub proof fn lemma_swap_keeps_permutation(s: Seq<u8>, a: int, b: int)
    requires
        is_permutation(s),
        0 <= a < 256,
        0 <= b < 256,
    ensures
        is_permutation(swapped(s, a, b)),
{
    let t = swapped(s, a, b);
    assert forall|x: int, y: int| 0 <= x < y < 256 implies t[x] != t[y] by {
        let from_x = if x == a {
            b
        } else if x == b {
            a
        } else {
            x
        };
        let from_y = if y == a {
            b
        } else if y == b {
            a
        } else {
            y
        };
        assert(t[x] == s[from_x]);
        assert(t[y] == s[from_y]);
        if from_x < from_y {
            assert(s[from_x] != s[from_y]);
        } else {
            assert(s[from_y] != s[from_x]);
        }
    }
}

/// The key schedule leaves a permutation after every step.
pub proof fn lemma_schedule_is_permutation(key: Seq<u8>, n: nat)
    requires
        key.len() >= 1,
        n <= 256,
    ensures
        is_permutation(schedule(key, n).0),
    decreases n,
{
    if n > 0 {
        lemma_schedule_is_permutation(key, (n - 1) as nat);
        let (s, j) = schedule(key, (n - 1) as nat);
        let i = n - 1;
        let j = ((j + s[i] + key[i % (key.len() as int)]) % 256) as u8;
        lemma_swap_keeps_permutation(s, i, j as int);
    }
}

/// The permutation stays one, however many bytes are processed.
pub proof fn lemma_advance_keeps_permutation(state: Rc4View, n: nat)
    requires
        state.wf(),
    ensures
        state.advance(n).wf(),
    decreases n,
{
    if n > 0 {
        lemma_advance_keeps_permutation(state, (n - 1) as nat);
        let before = state.advance((n - 1) as nat);
        let i = ((before.i + 1) % 256) as u8;
        let j = ((before.j + before.s[i as int]) % 256) as u8;
        lemma_swap_keeps_permutation(before.s, i as int, j as int);
    }
}

/// Two ciphers in the same state undo each other: what one made of `data`,
/// the other turns back into `data`.
pub proof fn lemma_process_twice_is_identity(state: Rc4View, data: Seq<u8>)
    ensures
        xor_bytes(xor_bytes(data, state.keystream(data.len())), state.keystream(data.len()))
            == data,
{
    let stream = state.keystream(data.len());
    let once = xor_bytes(data, stream);
    let twice = xor_bytes(once, stream);
    assert forall|k: int| 0 <= k < data.len() implies twice[k] == data[k] by {
        let d = data[k];
        let c = stream[k];
        assert((d ^ c) ^ c == d) by (bit_vector);
    }
    assert(twice =~= data);
}

/// Two ciphers that were made from the same key and run over the same
/// number of bytes to warm them up undo each other, whatever the key.
pub proof fn lemma_same_key_round_trip(key: Seq<u8>, warm_up: nat, payload: Seq<u8>)
    requires
        key.len() >= 1,
    ensures
        ({
            let encryptor = Rc4View::keyed(key).advance(warm_up);
            let decryptor = Rc4View::keyed(key).advance(warm_up);
            let sent = xor_bytes(payload, encryptor.keystream(payload.len()));
            &&& encryptor.wf() && decryptor.wf()
            &&& xor_bytes(sent, decryptor.keystream(sent.len())) == payload
        }),
{
    lemma_schedule_is_permutation(key, 256);
    lemma_advance_keeps_permutation(Rc4View::keyed(key), warm_up);
    lemma_process_twice_is_identity(Rc4View::keyed(key).advance(warm_up), payload);
}

/// One cipher instance.
pub struct Rc4 {
    s: [u8; 256],
    i: u8,
    j: u8,
}

impl View for Rc4 {
    type V = Rc4View;

    closed spec fn view(&self) -> Rc4View {
        Rc4View { s: self.s@, i: self.i, j: self.j }
    }
}

impl Rc4 {
    /// A cipher keyed with `key`, which must not be empty. Its permutation
    /// is a bijection from the start.
    pub fn new(key: &[u8]) -> (cipher: Self)
        requires
            key@.len() >= 1,
        ensures
            cipher@ == Rc4View::keyed(key@),
            cipher@.wf(),
    {
        let mut s = [0u8; 256];
        let mut i: usize = 0;
        while i < 256
            invariant
                i <= 256,
                forall|k: int| 0 <= k < i ==> s@[k] == k as u8,
            decreases 256 - i,
        {
            s[i] = i as u8;
            i += 1;
        }
        assert(s@ =~= identity_table());

        let mut j: u8 = 0;
        let mut i: usize = 0;
        while i < 256
            invariant
                i <= 256,
                key@.len() >= 1,
                (s@, j) == schedule(key@, i as nat),
            decreases 256 - i,
        {
            j = j.wrapping_add(s[i]).wrapping_add(key[i % key.len()]);
            let at_i = s[i];
            let at_j = s[j as usize];
            s[i] = at_j;
            s[j as usize] = at_i;
            assert(s@ =~= schedule(key@, (i + 1) as nat).0);
            i += 1;
        }
        proof {
            lemma_schedule_is_permutation(key@, 256);
        }
        Rc4 { s, i: 0, j: 0 }
    }

    /// Encrypts or decrypts `data` in place: every byte is combined by
    /// exclusive or with the next key byte. The permutation stays a bijection.
    pub fn process(&mut self, data: &mut [u8])
        requires
            old(self)@.wf(),
        ensures
            final(self)@ == old(self)@.advance(old(data)@.len()),
            final(self)@.wf(),
            final(data)@ == xor_bytes(old(data)@, old(self)@.keystream(old(data)@.len())),
    {
        let n = data.len();
        let mut k: usize = 0;
        while k < n
            invariant
                k <= n,
                n == old(data)@.len(),
                data@.len() == n,
                self@ == old(self)@.advance(k as nat),
                forall|x: int|
                    0 <= x < k ==> data@[x] == old(data)@[x] ^ old(self)@.advance(
                        (x + 1) as nat,
                    ).output(),
                forall|x: int| k <= x < n ==> data@[x] == old(data)@[x],
            decreases n - k,
        {
            self.i = self.i.wrapping_add(1);
            self.j = self.j.wrapping_add(self.s[self.i as usize]);

            let at_i = self.s[self.i as usize];
            let at_j = self.s[self.j as usize];
            self.s[self.i as usize] = at_j;
            self.s[self.j as usize] = at_i;
            assert(self@ == old(self)@.advance((k + 1) as nat)) by {
                assert(self.s@ =~= old(self)@.advance((k + 1) as nat).s);
            }

            let key_byte = self.s[self.s[self.i as usize].wrapping_add(
                self.s[self.j as usize],
            ) as usize];
            data[k] = data[k] ^ key_byte;
            k += 1;
        }
        proof {
            lemma_advance_keeps_permutation(old(self)@, n as nat);
            assert(data@ =~= xor_bytes(old(data)@, old(self)@.keystream(n as nat)));
        }
    }
}

} // verus!
