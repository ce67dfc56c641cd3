//! The contract metadata of the two contracts: NEP-148 for the AEX token,
//! NEP-177 for the AERX NFTs, with the validity check that the NEAR
//! contract standards apply when a contract is created.
use vstd::prelude::*;
use crate::text::{copy_opt_text, copy_opt_bytes};

verus! {

/// The metadata standard an AEX token contract follows.
pub const FT_METADATA_SPEC: &'static str = "ft-1.0.0";

/// The metadata standard an AERX NFT contract follows.
pub const NFT_METADATA_SPEC: &'static str = "nft-1.0.0";

/// The AEX token icon.
pub const AEX_ICON_URL: &'static str = "data:image/svg+xml,%3csvg xmlns='http://www.w3.org/2000/svg' fill='none' viewBox='0 0 32 32'%3e%3ccircle cx='16' cy='16' r='16' fill='white'/%3e%3cg clip-path='url(%23a)'%3e%3cpath fill='%236054F0' d='M20.695 9.356c1.176 0 2.211.23 3.104.69a4.929 4.929 0 0 1 2.104 1.975c.509.865.763 1.921.763 3.17v1.699h-9.051c.041.988.363 1.765.964 2.331.609.56 1.452.839 2.529.839.843 0 1.652-.084 2.428-.253a12.51 12.51 0 0 0 2.33-.758v2.71a9.897 9.897 0 0 1-2.192.69c-.751.145-1.677.218-2.78.218a8.894 8.894 0 0 1-2.152-.253 6.755 6.755 0 0 1-1.853-.78A5.41 5.41 0 0 1 15.46 20.3c-.5.544-1.001.991-1.502 1.344-.5.352-1.08.612-1.74.78-.651.161-1.46.242-2.429.242-.801 0-1.54-.146-2.216-.437a3.707 3.707 0 0 1-1.628-1.332c-.409-.605-.613-1.37-.613-2.297 0-.91.225-1.657.676-2.24.45-.589 1.123-1.033 2.016-1.331.901-.299 2.02-.471 3.355-.517l2.391-.07v-.964c0-.528-.188-.919-.563-1.171-.367-.253-.872-.38-1.515-.38-.668 0-1.315.081-1.94.242-.627.16-1.253.375-1.879.643l-1.239-2.32c.735-.36 1.557-.643 2.466-.85.91-.206 1.85-.31 2.817-.31.943 0 1.77.127 2.48.38.717.244 1.318.62 1.802 1.125a5.416 5.416 0 0 1 1.903-1.114c.726-.245 1.59-.368 2.591-.368Zm-6.924 7.132-1.415.046c-1.16.03-1.97.233-2.428.609-.451.375-.676.869-.676 1.481 0 .536.158.919.475 1.149.326.222.752.333 1.277.333.526 0 .998-.1 1.415-.299.417-.199.747-.49.99-.873.241-.383.362-.846.362-1.39v-1.056Zm6.848-4.64c-.85 0-1.535.219-2.053.655-.509.436-.801 1.122-.876 2.056h5.383a3.34 3.34 0 0 0-.3-1.39 2.234 2.234 0 0 0-.814-.965c-.359-.237-.805-.356-1.34-.356Z'/%3e%3c/g%3e%3cdefs%3e%3cclipPath id='a'%3e%3cpath fill='white' d='M0 0h21.333v21.333H0z' transform='translate(5.333 5.333)'/%3e%3c/clipPath%3e%3c/defs%3e%3c/svg%3e";

/// The AERX NFT icon.
pub const AERX_ICON_URL: &'static str = "data:image/svg+xml,%3Csvg xmlns='http://www.w3.org/2000/svg' viewBox='0 -30 230 210'%3E%3Cg id='l' data-name='l'%3E%3Cpath fill='%23C4A2FC' d='M57,3.2c-15.4,2-25.4,4.7-35.8,9.4L16,15l5.7,11.5C25.2,33.5,28,38,29,38c.8,0,5.3-1.3,10-2.9C51.4,30.9,56.1,30,65,30c11.1,0,17,2.4,20.6,8.6,1.9,3.3,2.4,5.5,2.4,11.2,0,4.4-.5,7.4-1.2,7.8-.6.4-8.8,1.1-18.2,1.6-37,1.8-54.4,9.1-62.2,26.1-2.7,5.8-2.9,7-2.9,19.2,0,13,0,13,3.7,20.6,5.8,11.9,15.3,19.3,28,22,7,1.5,27.7.6,35.3-1.5,10.5-3,20.9-9.5,28.7-18l4.7-5.1,7,7.1c7.3,7.3,15.9,12.4,27.1,16.1,8,2.6,39.3,2.6,50-.1,13.1-3.2,19.1-5.7,20.1-8.3,1-2.7,1.3-24.6.3-25.6-.3-.3-2.9.3-5.8,1.5-13.4,5.3-28.3,8.1-41.6,7.6-9.6-.3-11.2-.6-17.2-3.6-10.2-5-16.5-14.4-17.5-26.3l-.6-5.9,4.4-.1c2.4-.1,22.9-.2,45.4-.3l41-.1-.1-15.6c0-23.3-4.2-36.3-15.6-48.4C191,9.9,180.1,4.9,163.3,3.1c-17.4-1.9-34,2.4-46.4,12.1-2,1.5-4.2,2.8-4.9,2.8-.7,0-2.8-1.4-4.7-3-4-3.6-11.9-7.7-18.2-9.6C84.2,4,67.8,1.9,64.5,2.2c-1.1.1-4.5.6-7.5,1zm109.5,27.7c8.9,4,15.3,14.8,15.5,25.8V60h-55v-3.9c0-11.8,8-22.8,19-26.2,4.9-1.5,16.3-.9,20.5,1zM87.8,88.8c.4,10.9-1.5,17.5-6.8,23.4-5.8,6.6-11.1,8.8-21.2,8.8-9.2,0-13.2-1.6-16.5-6.7-2.7-4.1-2.5-17.6.4-22.1,5.4-8.6,15.7-12.1,34.8-11.8l9,.1.3,8.3z'/%3E%3C/g%3E%3C/svg%3E";

/// The metadata of a fungible token contract.
pub struct FtContractMetadata {
    pub spec: String,
    pub name: String,
    pub symbol: String,
    pub icon: Option<String>,
    pub reference: Option<String>,
    pub reference_hash: Option<Vec<u8>>,
    pub decimals: u8,
}

/// Fungible token contract metadata taken by value.
pub struct FtMetadataView {
    pub spec: Seq<char>,
    pub name: Seq<char>,
    pub symbol: Seq<char>,
    pub icon: Option<Seq<char>>,
    pub reference: Option<Seq<char>>,
    pub reference_hash: Option<Seq<u8>>,
    pub decimals: u8,
}

/// The metadata of a non-fungible token contract.
pub struct NftContractMetadata {
    pub spec: String,
    pub name: String,
    pub symbol: String,
    pub icon: Option<String>,
    pub base_uri: Option<String>,
    pub reference: Option<String>,
    pub reference_hash: Option<Vec<u8>>,
}

/// Non-fungible token contract metadata taken by value.
pub struct NftMetadataView {
    pub spec: Seq<char>,
    pub name: Seq<char>,
    pub symbol: Seq<char>,
    pub icon: Option<Seq<char>>,
    pub base_uri: Option<Seq<char>>,
    pub reference: Option<Seq<char>>,
    pub reference_hash: Option<Seq<u8>>,
}

/// The text of an optional text.
pub open spec fn text_of(o: Option<String>) -> Option<Seq<char>> {
    match o {
        Some(s) => Some(s@),
        None => None,
    }
}

/// The bytes of an optional byte string.
pub open spec fn bytes_of(o: Option<Vec<u8>>) -> Option<Seq<u8>> {
    match o {
        Some(b) => Some(b@),
        None => None,
    }
}

impl View for FtContractMetadata {
    type V = FtMetadataView;

    open spec fn view(&self) -> FtMetadataView {
        FtMetadataView {
            spec: self.spec@,
            name: self.name@,
            symbol: self.symbol@,
            icon: text_of(self.icon),
            reference: text_of(self.reference),
            reference_hash: bytes_of(self.reference_hash),
            decimals: self.decimals,
        }
    }
}

impl View for NftContractMetadata {
    type V = NftMetadataView;

    open spec fn view(&self) -> NftMetadataView {
        NftMetadataView {
            spec: self.spec@,
            name: self.name@,
            symbol: self.symbol@,
            icon: text_of(self.icon),
            base_uri: text_of(self.base_uri),
            reference: text_of(self.reference),
            reference_hash: bytes_of(self.reference_hash),
        }
    }
}

/// A reference and its hash come together, and a hash has 32 bytes.
pub open spec fn reference_valid(reference: Option<Seq<char>>, reference_hash: Option<Seq<u8>>) -> bool {
    &&& reference is Some == reference_hash is Some
    &&& reference_hash matches Some(h) ==> h.len() == 32
}

/// Whether fungible token metadata may describe a contract.
pub open spec fn ft_metadata_valid(m: FtMetadataView) -> bool {
    m.spec == FT_METADATA_SPEC@ && reference_valid(m.reference, m.reference_hash)
}

/// Whether non-fungible token metadata may describe a contract.
pub open spec fn nft_metadata_valid(m: NftMetadataView) -> bool {
    m.spec == NFT_METADATA_SPEC@ && reference_valid(m.reference, m.reference_hash)
}

fn check_reference(reference: &Option<String>, reference_hash: &Option<Vec<u8>>) -> (r: bool)
    ensures
        r == reference_valid(text_of(*reference), bytes_of(*reference_hash)),
{
    if reference.is_some() != reference_hash.is_some() {
        return false;
    }
    match reference_hash {
        Some(h) => h.len() == 32,
        None => true,
    }
}

impl FtContractMetadata {
    /// The metadata the AEX token is created with by default.
    pub fn aex_default() -> (r: Self)
        ensures
            r@ == (FtMetadataView {
                spec: FT_METADATA_SPEC@,
                name: "AEX TOKEN"@,
                symbol: "AEX"@,
                icon: Some(AEX_ICON_URL@),
                reference: None,
                reference_hash: None,
                decimals: 24,
            }),
            ft_metadata_valid(r@),
    {
        FtContractMetadata {
            spec: String::from_str(FT_METADATA_SPEC),
            name: String::from_str("AEX TOKEN"),
            symbol: String::from_str("AEX"),
            icon: Some(String::from_str(AEX_ICON_URL)),
            reference: None,
            reference_hash: None,
            decimals: 24,
        }
    }

    /// Whether the metadata may describe a contract (`assert_valid`).
    pub fn is_valid(&self) -> (r: bool)
        ensures
            r == ft_metadata_valid(self@),
    {
        let spec = String::from_str(FT_METADATA_SPEC);
        self.spec == spec && check_reference(&self.reference, &self.reference_hash)
    }

    /// A copy of the metadata.
    pub fn duplicate(&self) -> (r: Self)
        ensures
            r@ == self@,
    {
        FtContractMetadata {
            spec: self.spec.clone(),
            name: self.name.clone(),
            symbol: self.symbol.clone(),
            icon: copy_opt_text(&self.icon),
            reference: copy_opt_text(&self.reference),
            reference_hash: copy_opt_bytes(&self.reference_hash),
            decimals: self.decimals,
        }
    }
}

impl NftContractMetadata {
    /// The metadata the AERX NFT contract is created with by default.
    pub fn aerx_default() -> (r: Self)
        ensures
            r@ == (NftMetadataView {
                spec: NFT_METADATA_SPEC@,
                name: "AERX NFT"@,
                symbol: "AERX-NFT"@,
                icon: Some(AERX_ICON_URL@),
                base_uri: None,
                reference: None,
                reference_hash: None,
            }),
            nft_metadata_valid(r@),
    {
        NftContractMetadata {
            spec: String::from_str(NFT_METADATA_SPEC),
            name: String::from_str("AERX NFT"),
            symbol: String::from_str("AERX-NFT"),
            icon: Some(String::from_str(AERX_ICON_URL)),
            base_uri: None,
            reference: None,
            reference_hash: None,
        }
    }

    /// Whether the metadata may describe a contract (`assert_valid`).
    pub fn is_valid(&self) -> (r: bool)
        ensures
            r == nft_metadata_valid(self@),
    {
        let spec = String::from_str(NFT_METADATA_SPEC);
        self.spec == spec && check_reference(&self.reference, &self.reference_hash)
    }

    /// A copy of the metadata.
    pub fn duplicate(&self) -> (r: Self)
        ensures
            r@ == self@,
    {
        NftContractMetadata {
            spec: self.spec.clone(),
            name: self.name.clone(),
            symbol: self.symbol.clone(),
            icon: copy_opt_text(&self.icon),
            base_uri: copy_opt_text(&self.base_uri),
            reference: copy_opt_text(&self.reference),
            reference_hash: copy_opt_bytes(&self.reference_hash),
        }
    }
}

} // verus!
