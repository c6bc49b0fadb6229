use vstd::prelude::*;

verus! {

/// The 20-byte identifier of a contract: what an asset or a pool is known by.
#[derive(Clone, Copy, Debug)]
pub struct Address {
    pub bytes: [u8; 20],
}

impl View for Address {
    type V = Seq<u8>;

    open spec fn view(&self) -> Seq<u8> {
        self.bytes@
    }
}

/// The bytes of the identifier of the wrapped native asset on the main network.
pub open spec fn weth_bytes() -> Seq<u8> {
    seq![
        0xC0u8, 0x2a, 0xaA, 0x39, 0xb2, 0x23, 0xFE, 0x8D, 0x0A, 0x0e,
        0x5C, 0x4F, 0x27, 0xeA, 0xD9, 0x08, 0x3C, 0x75, 0x6C, 0xc2,
    ]
}

/// Twenty zero bytes: the identifier that stands for the native asset.
pub open spec fn zero_bytes() -> Seq<u8> {
    Seq::new(20, |i: int| 0u8)
}

impl Address {
    pub fn new(bytes: [u8; 20]) -> (r: Address)
        ensures
            r@ == bytes@,
    {
        Address { bytes }
    }

    /// The all-zero identifier.
    pub fn zero() -> (r: Address)
        ensures
            r@ == zero_bytes(),
    {
        let r = Address { bytes: [0u8; 20] };
        assert(r@ =~= zero_bytes());
        r
    }

    /// The identifier of the wrapped native asset.
    pub fn weth() -> (r: Address)
        ensures
            r@ == weth_bytes(),
    {
        let r = Address {
            bytes: [
                0xC0, 0x2a, 0xaA, 0x39, 0xb2, 0x23, 0xFE, 0x8D, 0x0A, 0x0e,
                0x5C, 0x4F, 0x27, 0xeA, 0xD9, 0x08, 0x3C, 0x75, 0x6C, 0xc2,
            ],
        };
        assert(r@ =~= weth_bytes());
        r
    }

    /// Whether two identifiers hold the same bytes.
    pub fn same(&self, other: &Address) -> (r: bool)
        ensures
            r == (self@ == other@),
    {
        let mut i: usize = 0;
        while i < 20
            invariant
                i <= 20,
                forall|j: int| 0 <= j < i ==> self.bytes@[j] == other.bytes@[j],
            decreases 20 - i,
        {
            if self.bytes[i] != other.bytes[i] {
                return false;
            }
            i += 1;
        }
        assert(self@ =~= other@);
        true
    }
}

impl PartialEq for Address {
    fn eq(&self, other: &Address) -> (r: bool) {
        self.same(other)
    }
}

impl Eq for Address {

}

impl vstd::std_specs::cmp::PartialEqSpecImpl for Address {
    open spec fn obeys_eq_spec() -> bool {
        true
    }

    open spec fn eq_spec(&self, other: &Address) -> bool {
        self@ == other@
    }
}

/// A tradable asset. Its identity is its address alone.
#[derive(Clone, Debug)]
pub struct Token {
    /// The contract address: the unique identifier.
    pub address: Address,
    /// Human-readable symbol.
    pub symbol: String,
    /// Decimal precision.
    pub decimals: u8,
    /// Whether this is the wrapped native asset.
    pub is_weth: bool,
    /// Whether this is the native asset itself.
    pub is_native: bool,
}

impl Token {
    /// A token with its flags derived from the address.
    pub fn new(address: Address, symbol: String, decimals: u8) -> (r: Token)
        ensures
            r.address@ == address@,
            r.symbol@ == symbol@,
            r.decimals == decimals,
            r.is_weth == (address@ == weth_bytes()),
            r.is_native == (address@ == zero_bytes()),
    {
        let weth = Address::weth();
        let zero = Address::zero();
        let is_weth = address.same(&weth);
        let is_native = address.same(&zero);
        Token { address, symbol, decimals, is_weth, is_native }
    }

    /// A stand-in token: the zero address, symbol `UNK`, 18 decimals.
    pub fn empty() -> (r: Token)
        ensures
            r.address@ == zero_bytes(),
            r.symbol@ == "UNK"@,
            r.decimals == 18,
            !r.is_weth,
            r.is_native,
    {
        let zero = Address::zero();
        let symbol = "UNK".to_string();
        proof {
            assert(weth_bytes()[0] == 0xC0u8);
            assert(zero_bytes()[0] == 0u8);
        }
        Token::new(zero, symbol, 18)
    }

    /// Whether two tokens are the same entity: whether their addresses agree.
    pub fn same_entity(&self, other: &Token) -> (r: bool)
        ensures
            r == (self.address@ == other.address@),
    {
        self.address.same(&other.address)
    }
}

impl PartialEq for Token {
    fn eq(&self, other: &Token) -> (r: bool) {
        self.same_entity(other)
    }
}

impl Eq for Token {

}

impl vstd::std_specs::cmp::PartialEqSpecImpl for Token {
    open spec fn obeys_eq_spec() -> bool {
        true
    }

    open spec fn eq_spec(&self, other: &Token) -> bool {
        self.address@ == other.address@
    }
}

/// A token in fixed size: the symbol is held in eight bytes.
#[derive(Clone, Copy, Debug)]
pub struct TinyToken {
    pub address: Address,
    pub symbol: [u8; 8],
    pub decimals: u8,
}

} // verus!
