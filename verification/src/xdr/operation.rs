//! Operations: what a transaction asks the ledger to do.

use crate::error::XdrError;
use crate::xdr::codec::{u32_xdr, XdrCodec};
use crate::xdr::opaque::{LimitedString, LimitedVarOpaque};
use crate::xdr::types::{
    lemma_tag_of_xdr, lemma_tagged_of_xdr, lemma_tagged_sound, AccountId, Asset, AssetCode,
    ClaimableBalanceId, MuxedAccount, Price, Signer,
};
use vstd::prelude::*;

verus! {

/// The value stored under a name in an account's data.
pub type DataValue = LimitedVarOpaque<64>;

/// Creates and funds a new account.
#[derive(Debug, Clone, Copy, PartialEq, Eq)]
pub struct CreateAccountOp {
    /// The account to create.
    pub destination: AccountId,
    /// The amount of the native asset to give it, in stroops.
    pub starting_balance: i64,
}

impl XdrCodec for CreateAccountOp {
    open spec fn wf(&self) -> bool {
        (self.destination, self.starting_balance).wf()
    }

    open spec fn xdr(&self) -> Seq<u8> {
        (self.destination, self.starting_balance).xdr()
    }

    open spec fn parse(input: Seq<u8>, start: usize) -> Result<(Self, usize), XdrError> {
        match <(AccountId, i64)>::parse(input, start) {
            Ok(((destination, starting_balance), end)) => Ok(
                (CreateAccountOp { destination, starting_balance }, end),
            ),
            Err(e) => Err(e),
        }
    }

    proof fn lemma_parse_of_xdr(value: Self, input: Seq<u8>, start: usize) {
        <(AccountId, i64)>::lemma_parse_of_xdr(
            (value.destination, value.starting_balance),
            input,
            start,
        );
    }

    proof fn lemma_parse_sound(input: Seq<u8>, start: usize) {
        <(AccountId, i64)>::lemma_parse_sound(input, start);
    }

    fn write_xdr(&self, out: &mut Vec<u8>) {
        self.destination.write_xdr(out);
        self.starting_balance.write_xdr(out);
        assert(out@ =~= old(out)@ + self.xdr());
    }

    fn read_xdr(input: &[u8], start: usize) -> (r: Result<(Self, usize), XdrError>) {
        match <(AccountId, i64)>::read_xdr(input, start) {
            Ok(((destination, starting_balance), end)) => Ok(
                (CreateAccountOp { destination, starting_balance }, end),
            ),
            Err(e) => Err(e),
        }
    }
}

/// Sends an amount of an asset to an account.
#[derive(Debug, Clone, Copy, PartialEq, Eq)]
pub struct PaymentOp {
    /// The receiver.
    pub destination: MuxedAccount,
    /// What is sent.
    pub asset: Asset,
    /// How much is sent, in stroops.
    pub amount: i64,
}

/// The fields of a `PaymentOp`, paired up in the order in which they are written.
pub type PaymentOpFields = (MuxedAccount, (Asset, i64));

impl PaymentOp {
    /// The fields in the order in which they are written.
    pub open spec fn fields(&self) -> PaymentOpFields {
        (self.destination, (self.asset, self.amount))
    }

    /// The value with the given fields.
    pub open spec fn of_fields(fields: PaymentOpFields) -> Self {
        let (destination, (asset, amount)) = fields;
        PaymentOp { destination, asset, amount }
    }
}

impl XdrCodec for PaymentOp {
    open spec fn wf(&self) -> bool {
        self.fields().wf()
    }

    open spec fn xdr(&self) -> Seq<u8> {
        self.fields().xdr()
    }

    open spec fn parse(input: Seq<u8>, start: usize) -> Result<(Self, usize), XdrError> {
        match <PaymentOpFields>::parse(input, start) {
            Ok((fields, end)) => Ok((Self::of_fields(fields), end)),
            Err(e) => Err(e),
        }
    }

    proof fn lemma_parse_of_xdr(value: Self, input: Seq<u8>, start: usize) {
        <PaymentOpFields>::lemma_parse_of_xdr(value.fields(), input, start);
    }

    proof fn lemma_parse_sound(input: Seq<u8>, start: usize) {
        <PaymentOpFields>::lemma_parse_sound(input, start);
    }

    fn write_xdr(&self, out: &mut Vec<u8>) {
        self.destination.write_xdr(out);
        let ghost before_asset = out@;
        self.asset.write_xdr(out);
        self.amount.write_xdr(out);
        proof {
            let tail_asset = self.asset.xdr() + self.amount.xdr();
            assert(out@ =~= before_asset + tail_asset);
            assert(out@ =~= old(out)@ + (self.destination.xdr() + tail_asset));
        }
    }

    fn read_xdr(input: &[u8], start: usize) -> (r: Result<(Self, usize), XdrError>) {
        match <PaymentOpFields>::read_xdr(input, start) {
            Ok((fields, end)) => {
                let (destination, (asset, amount)) = fields;
                Ok((PaymentOp { destination, asset, amount }, end))
            },
            Err(e) => Err(e),
        }
    }
}

/// Creates, changes or removes an offer to sell one asset for another.
#[derive(Debug, Clone, Copy, PartialEq, Eq)]
pub struct ManageSellOfferOp {
    /// What is sold.
    pub selling: Asset,
    /// What is bought.
    pub buying: Asset,
    /// How much is sold, in stroops; 0 removes the offer.
    pub amount: i64,
    /// The price of one unit of `selling` in terms of `buying`.
    pub price: Price,
    /// The offer to change, 0 for a new one.
    pub offer_id: i64,
}

/// The fields of a `ManageSellOfferOp`, paired up in the order in which they are written.
pub type ManageSellOfferOpFields = (Asset, (Asset, (i64, (Price, i64))));

impl ManageSellOfferOp {
    /// The fields in the order in which they are written.
    pub open spec fn fields(&self) -> ManageSellOfferOpFields {
        (self.selling, (self.buying, (self.amount, (self.price, self.offer_id))))
    }

    /// The value with the given fields.
    pub open spec fn of_fields(fields: ManageSellOfferOpFields) -> Self {
        let (selling, (buying, (amount, (price, offer_id)))) = fields;
        ManageSellOfferOp { selling, buying, amount, price, offer_id }
    }
}

impl XdrCodec for ManageSellOfferOp {
    open spec fn wf(&self) -> bool {
        self.fields().wf()
    }

    open spec fn xdr(&self) -> Seq<u8> {
        self.fields().xdr()
    }

    open spec fn parse(input: Seq<u8>, start: usize) -> Result<(Self, usize), XdrError> {
        match <ManageSellOfferOpFields>::parse(input, start) {
            Ok((fields, end)) => Ok((Self::of_fields(fields), end)),
            Err(e) => Err(e),
        }
    }

    proof fn lemma_parse_of_xdr(value: Self, input: Seq<u8>, start: usize) {
        <ManageSellOfferOpFields>::lemma_parse_of_xdr(value.fields(), input, start);
    }

    proof fn lemma_parse_sound(input: Seq<u8>, start: usize) {
        <ManageSellOfferOpFields>::lemma_parse_sound(input, start);
    }

    fn write_xdr(&self, out: &mut Vec<u8>) {
        self.selling.write_xdr(out);
        let ghost before_buying = out@;
        self.buying.write_xdr(out);
        let ghost before_amount = out@;
        self.amount.write_xdr(out);
        let ghost before_price = out@;
        self.price.write_xdr(out);
        self.offer_id.write_xdr(out);
        proof {
            let tail_price = self.price.xdr() + self.offer_id.xdr();
            assert(out@ =~= before_price + tail_price);
            let tail_amount = self.amount.xdr() + tail_price;
            assert(out@ =~= before_amount + tail_amount);
            let tail_buying = self.buying.xdr() + tail_amount;
            assert(out@ =~= before_buying + tail_buying);
            assert(out@ =~= old(out)@ + (self.selling.xdr() + tail_buying));
        }
    }

    fn read_xdr(input: &[u8], start: usize) -> (r: Result<(Self, usize), XdrError>) {
        match <ManageSellOfferOpFields>::read_xdr(input, start) {
            Ok((fields, end)) => {
                let (selling, (buying, (amount, (price, offer_id)))) = fields;
                Ok((ManageSellOfferOp { selling, buying, amount, price, offer_id }, end))
            },
            Err(e) => Err(e),
        }
    }
}

/// Changes the options of an account. Every field is optional and only the
/// fields that are present are changed.
#[derive(Debug, Clone, Copy, PartialEq, Eq)]
pub struct SetOptionsOp {
    /// The account that receives inflation.
    pub inflation_dest: Option<AccountId>,
    /// The flags to clear.
    pub clear_flags: Option<u32>,
    /// The flags to set.
    pub set_flags: Option<u32>,
    /// The weight of the master key.
    pub master_weight: Option<u32>,
    /// The threshold for operations of low security.
    pub low_threshold: Option<u32>,
    /// The threshold for operations of medium security.
    pub med_threshold: Option<u32>,
    /// The threshold for operations of high security.
    pub high_threshold: Option<u32>,
    /// The home domain of the account.
    pub home_domain: Option<LimitedString<32>>,
    /// A signer to add, change or, with weight 0, remove.
    pub signer: Option<Signer>,
}

/// The fields of a `SetOptionsOp`, paired up in the order in which they are written.
pub type SetOptionsOpFields = (Option<AccountId>, (Option<u32>, (Option<u32>, (Option<u32>,
    (Option<u32>, (Option<u32>, (Option<u32>, (Option<LimitedString<32>>, Option<Signer>))))))));

impl SetOptionsOp {
    /// The fields in the order in which they are written.
    pub open spec fn fields(&self) -> SetOptionsOpFields {
        (self.inflation_dest, (self.clear_flags, (self.set_flags, (self.master_weight,
            (self.low_threshold, (self.med_threshold, (self.high_threshold, (self.home_domain,
            self.signer))))))))
    }

    /// The value with the given fields.
    pub open spec fn of_fields(fields: SetOptionsOpFields) -> Self {
        let (inflation_dest, (clear_flags, (set_flags, (master_weight, (low_threshold,
            (med_threshold, (high_threshold, (home_domain, signer)))))))) = fields;
        SetOptionsOp { inflation_dest, clear_flags, set_flags, master_weight, low_threshold,
            med_threshold, high_threshold, home_domain, signer }
    }
}

impl XdrCodec for SetOptionsOp {
    open spec fn wf(&self) -> bool {
        self.fields().wf()
    }

    open spec fn xdr(&self) -> Seq<u8> {
        self.fields().xdr()
    }

    open spec fn parse(input: Seq<u8>, start: usize) -> Result<(Self, usize), XdrError> {
        match <SetOptionsOpFields>::parse(input, start) {
            Ok((fields, end)) => Ok((Self::of_fields(fields), end)),
            Err(e) => Err(e),
        }
    }

    proof fn lemma_parse_of_xdr(value: Self, input: Seq<u8>, start: usize) {
        <SetOptionsOpFields>::lemma_parse_of_xdr(value.fields(), input, start);
    }

    proof fn lemma_parse_sound(input: Seq<u8>, start: usize) {
        <SetOptionsOpFields>::lemma_parse_sound(input, start);
    }

    fn write_xdr(&self, out: &mut Vec<u8>) {
        self.inflation_dest.write_xdr(out);
        let ghost before_clear_flags = out@;
        self.clear_flags.write_xdr(out);
        let ghost before_set_flags = out@;
        self.set_flags.write_xdr(out);
        let ghost before_master_weight = out@;
        self.master_weight.write_xdr(out);
        let ghost before_low_threshold = out@;
        self.low_threshold.write_xdr(out);
        let ghost before_med_threshold = out@;
        self.med_threshold.write_xdr(out);
        let ghost before_high_threshold = out@;
        self.high_threshold.write_xdr(out);
        let ghost before_home_domain = out@;
        self.home_domain.write_xdr(out);
        self.signer.write_xdr(out);
        proof {
            let tail_home_domain = self.home_domain.xdr() + self.signer.xdr();
            assert(out@ =~= before_home_domain + tail_home_domain);
            let tail_high_threshold = self.high_threshold.xdr() + tail_home_domain;
            assert(out@ =~= before_high_threshold + tail_high_threshold);
            let tail_med_threshold = self.med_threshold.xdr() + tail_high_threshold;
            assert(out@ =~= before_med_threshold + tail_med_threshold);
            let tail_low_threshold = self.low_threshold.xdr() + tail_med_threshold;
            assert(out@ =~= before_low_threshold + tail_low_threshold);
            let tail_master_weight = self.master_weight.xdr() + tail_low_threshold;
            assert(out@ =~= before_master_weight + tail_master_weight);
            let tail_set_flags = self.set_flags.xdr() + tail_master_weight;
            assert(out@ =~= before_set_flags + tail_set_flags);
            let tail_clear_flags = self.clear_flags.xdr() + tail_set_flags;
            assert(out@ =~= before_clear_flags + tail_clear_flags);
            assert(out@ =~= old(out)@ + (self.inflation_dest.xdr() + tail_clear_flags));
        }
    }

    fn read_xdr(input: &[u8], start: usize) -> (r: Result<(Self, usize), XdrError>) {
        match <SetOptionsOpFields>::read_xdr(input, start) {
            Ok((fields, end)) => {
                let (inflation_dest, (clear_flags, (set_flags, (master_weight, (low_threshold,
                    (med_threshold, (high_threshold, (home_domain, signer)))))))) = fields;
                Ok((SetOptionsOp { inflation_dest, clear_flags, set_flags, master_weight,
                    low_threshold, med_threshold, high_threshold, home_domain, signer }, end))
            },
            Err(e) => Err(e),
        }
    }
}

/// Creates, changes or removes a trust line.
#[derive(Debug, Clone, Copy, PartialEq, Eq)]
pub struct ChangeTrustOp {
    /// The asset of the trust line.
    pub line: Asset,
    /// The limit of the trust line, in stroops; 0 removes it.
    pub limit: i64,
}

impl XdrCodec for ChangeTrustOp {
    open spec fn wf(&self) -> bool {
        (self.line, self.limit).wf()
    }

    open spec fn xdr(&self) -> Seq<u8> {
        (self.line, self.limit).xdr()
    }

    open spec fn parse(input: Seq<u8>, start: usize) -> Result<(Self, usize), XdrError> {
        match <(Asset, i64)>::parse(input, start) {
            Ok(((line, limit), end)) => Ok((ChangeTrustOp { line, limit }, end)),
            Err(e) => Err(e),
        }
    }

    proof fn lemma_parse_of_xdr(value: Self, input: Seq<u8>, start: usize) {
        <(Asset, i64)>::lemma_parse_of_xdr((value.line, value.limit), input, start);
    }

    proof fn lemma_parse_sound(input: Seq<u8>, start: usize) {
        <(Asset, i64)>::lemma_parse_sound(input, start);
    }

    fn write_xdr(&self, out: &mut Vec<u8>) {
        self.line.write_xdr(out);
        self.limit.write_xdr(out);
        assert(out@ =~= old(out)@ + self.xdr());
    }

    fn read_xdr(input: &[u8], start: usize) -> (r: Result<(Self, usize), XdrError>) {
        match <(Asset, i64)>::read_xdr(input, start) {
            Ok(((line, limit), end)) => Ok((ChangeTrustOp { line, limit }, end)),
            Err(e) => Err(e),
        }
    }
}

/// Sets how far the holder of a trust line is authorized.
#[derive(Debug, Clone, Copy, PartialEq, Eq)]
pub struct AllowTrustOp {
    /// The holder of the trust line.
    pub trustor: AccountId,
    /// The code of the asset of the trust line; its issuer is the source account.
    pub asset: AssetCode,
    /// 0 for no authorization, 1 for full authorization, 2 for keeping liabilities only.
    pub authorize: u32,
}

/// The fields of a `AllowTrustOp`, paired up in the order in which they are written.
pub type AllowTrustOpFields = (AccountId, (AssetCode, u32));

impl AllowTrustOp {
    /// The fields in the order in which they are written.
    pub open spec fn fields(&self) -> AllowTrustOpFields {
        (self.trustor, (self.asset, self.authorize))
    }

    /// The value with the given fields.
    pub open spec fn of_fields(fields: AllowTrustOpFields) -> Self {
        let (trustor, (asset, authorize)) = fields;
        AllowTrustOp { trustor, asset, authorize }
    }
}

impl XdrCodec for AllowTrustOp {
    open spec fn wf(&self) -> bool {
        self.fields().wf()
    }

    open spec fn xdr(&self) -> Seq<u8> {
        self.fields().xdr()
    }

    open spec fn parse(input: Seq<u8>, start: usize) -> Result<(Self, usize), XdrError> {
        match <AllowTrustOpFields>::parse(input, start) {
            Ok((fields, end)) => Ok((Self::of_fields(fields), end)),
            Err(e) => Err(e),
        }
    }

    proof fn lemma_parse_of_xdr(value: Self, input: Seq<u8>, start: usize) {
        <AllowTrustOpFields>::lemma_parse_of_xdr(value.fields(), input, start);
    }

    proof fn lemma_parse_sound(input: Seq<u8>, start: usize) {
        <AllowTrustOpFields>::lemma_parse_sound(input, start);
    }

    fn write_xdr(&self, out: &mut Vec<u8>) {
        self.trustor.write_xdr(out);
        let ghost before_asset = out@;
        self.asset.write_xdr(out);
        self.authorize.write_xdr(out);
        proof {
            let tail_asset = self.asset.xdr() + self.authorize.xdr();
            assert(out@ =~= before_asset + tail_asset);
            assert(out@ =~= old(out)@ + (self.trustor.xdr() + tail_asset));
        }
    }

    fn read_xdr(input: &[u8], start: usize) -> (r: Result<(Self, usize), XdrError>) {
        match <AllowTrustOpFields>::read_xdr(input, start) {
            Ok((fields, end)) => {
                let (trustor, (asset, authorize)) = fields;
                Ok((AllowTrustOp { trustor, asset, authorize }, end))
            },
            Err(e) => Err(e),
        }
    }
}

/// Sets, changes or deletes an entry in the data of an account.
#[derive(Debug, Clone, Copy, PartialEq, Eq)]
pub struct ManageDataOp {
    /// The name of the entry.
    pub data_name: LimitedString<64>,
    /// The new value; without one the entry is deleted.
    pub data_value: Option<DataValue>,
}

impl XdrCodec for ManageDataOp {
    open spec fn wf(&self) -> bool {
        (self.data_name, self.data_value).wf()
    }

    open spec fn xdr(&self) -> Seq<u8> {
        (self.data_name, self.data_value).xdr()
    }

    open spec fn parse(input: Seq<u8>, start: usize) -> Result<(Self, usize), XdrError> {
        match <(LimitedString<64>, Option<DataValue>)>::parse(input, start) {
            Ok(((data_name, data_value), end)) => Ok((ManageDataOp { data_name, data_value }, end)),
            Err(e) => Err(e),
        }
    }

    proof fn lemma_parse_of_xdr(value: Self, input: Seq<u8>, start: usize) {
        <(LimitedString<64>, Option<DataValue>)>::lemma_parse_of_xdr(
            (value.data_name, value.data_value),
            input,
            start,
        );
    }

    proof fn lemma_parse_sound(input: Seq<u8>, start: usize) {
        <(LimitedString<64>, Option<DataValue>)>::lemma_parse_sound(input, start);
    }

    fn write_xdr(&self, out: &mut Vec<u8>) {
        self.data_name.write_xdr(out);
        self.data_value.write_xdr(out);
        assert(out@ =~= old(out)@ + self.xdr());
    }

    fn read_xdr(input: &[u8], start: usize) -> (r: Result<(Self, usize), XdrError>) {
        match <(LimitedString<64>, Option<DataValue>)>::read_xdr(input, start) {
            Ok(((data_name, data_value), end)) => Ok((ManageDataOp { data_name, data_value }, end)),
            Err(e) => Err(e),
        }
    }
}

/// Raises the sequence number of an account.
#[derive(Debug, Clone, Copy, PartialEq, Eq)]
pub struct BumpSequenceOp {
    /// The new sequence number.
    pub bump_to: i64,
}

impl XdrCodec for BumpSequenceOp {
    open spec fn wf(&self) -> bool {
        self.bump_to.wf()
    }

    open spec fn xdr(&self) -> Seq<u8> {
        self.bump_to.xdr()
    }

    open spec fn parse(input: Seq<u8>, start: usize) -> Result<(Self, usize), XdrError> {
        match <i64>::parse(input, start) {
            Ok((bump_to, end)) => Ok((BumpSequenceOp { bump_to }, end)),
            Err(e) => Err(e),
        }
    }

    proof fn lemma_parse_of_xdr(value: Self, input: Seq<u8>, start: usize) {
        <i64>::lemma_parse_of_xdr(value.bump_to, input, start);
    }

    proof fn lemma_parse_sound(input: Seq<u8>, start: usize) {
        <i64>::lemma_parse_sound(input, start);
    }

    fn write_xdr(&self, out: &mut Vec<u8>) {
        self.bump_to.write_xdr(out);
    }

    fn read_xdr(input: &[u8], start: usize) -> (r: Result<(Self, usize), XdrError>) {
        match <i64>::read_xdr(input, start) {
            Ok((bump_to, end)) => Ok((BumpSequenceOp { bump_to }, end)),
            Err(e) => Err(e),
        }
    }
}

/// Claims a claimable balance.
#[derive(Debug, Clone, Copy, PartialEq, Eq)]
pub struct ClaimClaimableBalanceOp {
    /// The balance to claim.
    pub balance_id: ClaimableBalanceId,
}

impl XdrCodec for ClaimClaimableBalanceOp {
    open spec fn wf(&self) -> bool {
        self.balance_id.wf()
    }

    open spec fn xdr(&self) -> Seq<u8> {
        self.balance_id.xdr()
    }

    open spec fn parse(input: Seq<u8>, start: usize) -> Result<(Self, usize), XdrError> {
        match <ClaimableBalanceId>::parse(input, start) {
            Ok((balance_id, end)) => Ok((ClaimClaimableBalanceOp { balance_id }, end)),
            Err(e) => Err(e),
        }
    }

    proof fn lemma_parse_of_xdr(value: Self, input: Seq<u8>, start: usize) {
        <ClaimableBalanceId>::lemma_parse_of_xdr(value.balance_id, input, start);
    }

    proof fn lemma_parse_sound(input: Seq<u8>, start: usize) {
        <ClaimableBalanceId>::lemma_parse_sound(input, start);
    }

    fn write_xdr(&self, out: &mut Vec<u8>) {
        self.balance_id.write_xdr(out);
    }

    fn read_xdr(input: &[u8], start: usize) -> (r: Result<(Self, usize), XdrError>) {
        match <ClaimableBalanceId>::read_xdr(input, start) {
            Ok((balance_id, end)) => Ok((ClaimClaimableBalanceOp { balance_id }, end)),
            Err(e) => Err(e),
        }
    }
}

/// What an operation does, one variant for each kind of operation.
#[derive(Debug, Clone, Copy, PartialEq, Eq)]
pub enum OperationBody {
    /// Creates an account.
    CreateAccount(CreateAccountOp),
    /// Sends a payment.
    Payment(PaymentOp),
    /// Manages a sell offer.
    ManageSellOffer(ManageSellOfferOp),
    /// Sets options of an account.
    SetOptions(SetOptionsOp),
    /// Changes a trust line.
    ChangeTrust(ChangeTrustOp),
    /// Authorizes the holder of a trust line.
    AllowTrust(AllowTrustOp),
    /// Manages a data entry.
    ManageData(ManageDataOp),
    /// Bumps the sequence number.
    BumpSequence(BumpSequenceOp),
    /// Claims a claimable balance.
    ClaimClaimableBalance(ClaimClaimableBalanceOp),
    /// Ends the sponsoring of reserves that an earlier operation began.
    EndSponsoringFutureReserves,
}

impl XdrCodec for OperationBody {
    open spec fn wf(&self) -> bool {
        match *self {
            OperationBody::CreateAccount(inner) => inner.wf(),
            OperationBody::Payment(inner) => inner.wf(),
            OperationBody::ManageSellOffer(inner) => inner.wf(),
            OperationBody::SetOptions(inner) => inner.wf(),
            OperationBody::ChangeTrust(inner) => inner.wf(),
            OperationBody::AllowTrust(inner) => inner.wf(),
            OperationBody::ManageData(inner) => inner.wf(),
            OperationBody::BumpSequence(inner) => inner.wf(),
            OperationBody::ClaimClaimableBalance(inner) => inner.wf(),
            OperationBody::EndSponsoringFutureReserves => true,
        }
    }

    open spec fn xdr(&self) -> Seq<u8> {
        match *self {
            OperationBody::CreateAccount(inner) => u32_xdr(0) + inner.xdr(),
            OperationBody::Payment(inner) => u32_xdr(1) + inner.xdr(),
            OperationBody::ManageSellOffer(inner) => u32_xdr(3) + inner.xdr(),
            OperationBody::SetOptions(inner) => u32_xdr(5) + inner.xdr(),
            OperationBody::ChangeTrust(inner) => u32_xdr(6) + inner.xdr(),
            OperationBody::AllowTrust(inner) => u32_xdr(7) + inner.xdr(),
            OperationBody::ManageData(inner) => u32_xdr(10) + inner.xdr(),
            OperationBody::BumpSequence(inner) => u32_xdr(11) + inner.xdr(),
            OperationBody::ClaimClaimableBalance(inner) => u32_xdr(15) + inner.xdr(),
            OperationBody::EndSponsoringFutureReserves => u32_xdr(17),
        }
    }

    open spec fn parse(input: Seq<u8>, start: usize) -> Result<(Self, usize), XdrError> {
        match u32::parse(input, start) {
            Err(e) => Err(e),
            Ok((tag, next)) => if tag == 0 {
                match <CreateAccountOp>::parse(input, next) {
                    Ok((inner, end)) => Ok((OperationBody::CreateAccount(inner), end)),
                    Err(e) => Err(e),
                }
            } else if tag == 1 {
                match <PaymentOp>::parse(input, next) {
                    Ok((inner, end)) => Ok((OperationBody::Payment(inner), end)),
                    Err(e) => Err(e),
                }
            } else if tag == 3 {
                match <ManageSellOfferOp>::parse(input, next) {
                    Ok((inner, end)) => Ok((OperationBody::ManageSellOffer(inner), end)),
                    Err(e) => Err(e),
                }
            } else if tag == 5 {
                match <SetOptionsOp>::parse(input, next) {
                    Ok((inner, end)) => Ok((OperationBody::SetOptions(inner), end)),
                    Err(e) => Err(e),
                }
            } else if tag == 6 {
                match <ChangeTrustOp>::parse(input, next) {
                    Ok((inner, end)) => Ok((OperationBody::ChangeTrust(inner), end)),
                    Err(e) => Err(e),
                }
            } else if tag == 7 {
                match <AllowTrustOp>::parse(input, next) {
                    Ok((inner, end)) => Ok((OperationBody::AllowTrust(inner), end)),
                    Err(e) => Err(e),
                }
            } else if tag == 10 {
                match <ManageDataOp>::parse(input, next) {
                    Ok((inner, end)) => Ok((OperationBody::ManageData(inner), end)),
                    Err(e) => Err(e),
                }
            } else if tag == 11 {
                match <BumpSequenceOp>::parse(input, next) {
                    Ok((inner, end)) => Ok((OperationBody::BumpSequence(inner), end)),
                    Err(e) => Err(e),
                }
            } else if tag == 15 {
                match <ClaimClaimableBalanceOp>::parse(input, next) {
                    Ok((inner, end)) => Ok((OperationBody::ClaimClaimableBalance(inner), end)),
                    Err(e) => Err(e),
                }
            } else if tag == 17 {
                Ok((OperationBody::EndSponsoringFutureReserves, next))
            } else {
                Err(XdrError::InvalidDiscriminator { at_position: start, found: tag })
            },
        }
    }

    proof fn lemma_parse_of_xdr(value: Self, input: Seq<u8>, start: usize) {
        match value {
            OperationBody::CreateAccount(inner) => {
                lemma_tagged_of_xdr::<CreateAccountOp>(0, inner, input, start);
            },
            OperationBody::Payment(inner) => {
                lemma_tagged_of_xdr::<PaymentOp>(1, inner, input, start);
            },
            OperationBody::ManageSellOffer(inner) => {
                lemma_tagged_of_xdr::<ManageSellOfferOp>(3, inner, input, start);
            },
            OperationBody::SetOptions(inner) => {
                lemma_tagged_of_xdr::<SetOptionsOp>(5, inner, input, start);
            },
            OperationBody::ChangeTrust(inner) => {
                lemma_tagged_of_xdr::<ChangeTrustOp>(6, inner, input, start);
            },
            OperationBody::AllowTrust(inner) => {
                lemma_tagged_of_xdr::<AllowTrustOp>(7, inner, input, start);
            },
            OperationBody::ManageData(inner) => {
                lemma_tagged_of_xdr::<ManageDataOp>(10, inner, input, start);
            },
            OperationBody::BumpSequence(inner) => {
                lemma_tagged_of_xdr::<BumpSequenceOp>(11, inner, input, start);
            },
            OperationBody::ClaimClaimableBalance(inner) => {
                lemma_tagged_of_xdr::<ClaimClaimableBalanceOp>(15, inner, input, start);
            },
            OperationBody::EndSponsoringFutureReserves => {
                lemma_tag_of_xdr(17, input, start);
            },
        }
    }

    proof fn lemma_parse_sound(input: Seq<u8>, start: usize) {
        lemma_tagged_sound::<CreateAccountOp>(input, start);
        lemma_tagged_sound::<PaymentOp>(input, start);
        lemma_tagged_sound::<ManageSellOfferOp>(input, start);
        lemma_tagged_sound::<SetOptionsOp>(input, start);
        lemma_tagged_sound::<ChangeTrustOp>(input, start);
        lemma_tagged_sound::<AllowTrustOp>(input, start);
        lemma_tagged_sound::<ManageDataOp>(input, start);
        lemma_tagged_sound::<BumpSequenceOp>(input, start);
        lemma_tagged_sound::<ClaimClaimableBalanceOp>(input, start);
    }

    fn write_xdr(&self, out: &mut Vec<u8>) {
        match self {
            OperationBody::CreateAccount(inner) => {
                0u32.write_xdr(out);
                inner.write_xdr(out);
                assert(out@ =~= old(out)@ + (u32_xdr(0) + inner.xdr()));
            },
            OperationBody::Payment(inner) => {
                1u32.write_xdr(out);
                inner.write_xdr(out);
                assert(out@ =~= old(out)@ + (u32_xdr(1) + inner.xdr()));
            },
            OperationBody::ManageSellOffer(inner) => {
                3u32.write_xdr(out);
                inner.write_xdr(out);
                assert(out@ =~= old(out)@ + (u32_xdr(3) + inner.xdr()));
            },
            OperationBody::SetOptions(inner) => {
                5u32.write_xdr(out);
                inner.write_xdr(out);
                assert(out@ =~= old(out)@ + (u32_xdr(5) + inner.xdr()));
            },
            OperationBody::ChangeTrust(inner) => {
                6u32.write_xdr(out);
                inner.write_xdr(out);
                assert(out@ =~= old(out)@ + (u32_xdr(6) + inner.xdr()));
            },
            OperationBody::AllowTrust(inner) => {
                7u32.write_xdr(out);
                inner.write_xdr(out);
                assert(out@ =~= old(out)@ + (u32_xdr(7) + inner.xdr()));
            },
            OperationBody::ManageData(inner) => {
                10u32.write_xdr(out);
                inner.write_xdr(out);
                assert(out@ =~= old(out)@ + (u32_xdr(10) + inner.xdr()));
            },
            OperationBody::BumpSequence(inner) => {
                11u32.write_xdr(out);
                inner.write_xdr(out);
                assert(out@ =~= old(out)@ + (u32_xdr(11) + inner.xdr()));
            },
            OperationBody::ClaimClaimableBalance(inner) => {
                15u32.write_xdr(out);
                inner.write_xdr(out);
                assert(out@ =~= old(out)@ + (u32_xdr(15) + inner.xdr()));
            },
            OperationBody::EndSponsoringFutureReserves => {
                17u32.write_xdr(out);
            },
        }
    }

    fn read_xdr(input: &[u8], start: usize) -> (r: Result<(Self, usize), XdrError>) {
        let (tag, next) = match u32::read_xdr(input, start) {
            Ok(read) => read,
            Err(e) => {
                return Err(e);
            },
        };
        if tag == 0 {
            match <CreateAccountOp>::read_xdr(input, next) {
                Ok((inner, end)) => Ok((OperationBody::CreateAccount(inner), end)),
                Err(e) => Err(e),
            }
        } else if tag == 1 {
            match <PaymentOp>::read_xdr(input, next) {
                Ok((inner, end)) => Ok((OperationBody::Payment(inner), end)),
                Err(e) => Err(e),
            }
        } else if tag == 3 {
            match <ManageSellOfferOp>::read_xdr(input, next) {
                Ok((inner, end)) => Ok((OperationBody::ManageSellOffer(inner), end)),
                Err(e) => Err(e),
            }
        } else if tag == 5 {
            match <SetOptionsOp>::read_xdr(input, next) {
                Ok((inner, end)) => Ok((OperationBody::SetOptions(inner), end)),
                Err(e) => Err(e),
            }
        } else if tag == 6 {
            match <ChangeTrustOp>::read_xdr(input, next) {
                Ok((inner, end)) => Ok((OperationBody::ChangeTrust(inner), end)),
                Err(e) => Err(e),
            }
        } else if tag == 7 {
            match <AllowTrustOp>::read_xdr(input, next) {
                Ok((inner, end)) => Ok((OperationBody::AllowTrust(inner), end)),
                Err(e) => Err(e),
            }
        } else if tag == 10 {
            match <ManageDataOp>::read_xdr(input, next) {
                Ok((inner, end)) => Ok((OperationBody::ManageData(inner), end)),
                Err(e) => Err(e),
            }
        } else if tag == 11 {
            match <BumpSequenceOp>::read_xdr(input, next) {
                Ok((inner, end)) => Ok((OperationBody::BumpSequence(inner), end)),
                Err(e) => Err(e),
            }
        } else if tag == 15 {
            match <ClaimClaimableBalanceOp>::read_xdr(input, next) {
                Ok((inner, end)) => Ok((OperationBody::ClaimClaimableBalance(inner), end)),
                Err(e) => Err(e),
            }
        } else if tag == 17 {
            Ok((OperationBody::EndSponsoringFutureReserves, next))
        } else {
            Err(XdrError::InvalidDiscriminator { at_position: start, found: tag })
        }
    }
}

/// One operation of a transaction.
#[derive(Debug, Clone, Copy, PartialEq, Eq)]
pub struct Operation {
    /// The account the operation acts for, if it is not the source of the transaction.
    pub source_account: Option<MuxedAccount>,
    /// What the operation does.
    pub body: OperationBody,
}

impl XdrCodec for Operation {
    open spec fn wf(&self) -> bool {
        (self.source_account, self.body).wf()
    }

    open spec fn xdr(&self) -> Seq<u8> {
        (self.source_account, self.body).xdr()
    }

    open spec fn parse(input: Seq<u8>, start: usize) -> Result<(Self, usize), XdrError> {
        match <(Option<MuxedAccount>, OperationBody)>::parse(input, start) {
            Ok(((source_account, body), end)) => Ok((Operation { source_account, body }, end)),
            Err(e) => Err(e),
        }
    }

    proof fn lemma_parse_of_xdr(value: Self, input: Seq<u8>, start: usize) {
        <(Option<MuxedAccount>, OperationBody)>::lemma_parse_of_xdr(
            (value.source_account, value.body),
            input,
            start,
        );
    }

    proof fn lemma_parse_sound(input: Seq<u8>, start: usize) {
        <(Option<MuxedAccount>, OperationBody)>::lemma_parse_sound(input, start);
    }

    fn write_xdr(&self, out: &mut Vec<u8>) {
        self.source_account.write_xdr(out);
        self.body.write_xdr(out);
        assert(out@ =~= old(out)@ + self.xdr());
    }

    fn read_xdr(input: &[u8], start: usize) -> (r: Result<(Self, usize), XdrError>) {
        match <(Option<MuxedAccount>, OperationBody)>::read_xdr(input, start) {
            Ok(((source_account, body), end)) => Ok((Operation { source_account, body }, end)),
            Err(e) => Err(e),
        }
    }
}

} // verus!
