//! See [`Orders`]: up to [`MAX_ORDERS`](crate::state::user_order_sectors::MAX_ORDERS) order
//! arguments in fixed-size instruction data.
use vstd::prelude::*;

use solana_program_error::ProgramError;

use crate::error::{solana_program_error_from_code, solana_program_error_of, INVALID_INSTRUCTION_DATA};
use crate::pack::Pack;
use crate::price::order_info_args::{lemma_order_info_args_roundtrip, OrderInfoArgs, ORDER_INFO_ARGS_LEN};
use crate::state::user_order_sectors::MAX_ORDERS_USIZE;

verus! {

/// The size in bytes of packed [`Orders`]: the count, then every slot of order arguments.
pub const ORDERS_LEN: usize = 71;

/// Marker trait: implemented only for arrays of at most
/// [`MAX_ORDERS`](crate::state::user_order_sectors::MAX_ORDERS) order arguments.
pub trait UpToFive<const N: usize> {}

impl UpToFive<0> for [OrderInfoArgs; 0] {}

impl UpToFive<1> for [OrderInfoArgs; 1] {}

impl UpToFive<2> for [OrderInfoArgs; 2] {}

impl UpToFive<3> for [OrderInfoArgs; 3] {}

impl UpToFive<4> for [OrderInfoArgs; 4] {}

impl UpToFive<5> for [OrderInfoArgs; 5] {}

/// Up to five order arguments. Every slot is always present; the slots at and past
/// `num_orders` hold zeroed arguments that the public interface does not hand out.
#[derive(Clone, Copy, Debug, PartialEq, Eq)]
pub struct Orders {
    /// The number of slots that hold real order arguments.
    num_orders: u8,
    /// The order argument slots.
    order_args: [OrderInfoArgs; MAX_ORDERS_USIZE],
}

/// The contents of [`Orders`].
pub struct OrdersView {
    pub num_orders: u8,
    pub order_args: Seq<OrderInfoArgs>,
}

impl View for Orders {
    type V = OrdersView;

    closed spec fn view(&self) -> OrdersView {
        OrdersView { num_orders: self.num_orders, order_args: self.order_args@ }
    }
}

/// Zeroed order arguments, which fill the unused slots.
pub open spec fn zeroed_args() -> OrderInfoArgs {
    OrderInfoArgs {
        price_mantissa: 0,
        base_scalar: 0,
        base_exponent_biased: 0,
        quote_exponent_biased: 0,
    }
}

/// The bytes of packed slots: each slot's packed arguments in turn.
pub open spec fn packed_slots(args: Seq<OrderInfoArgs>) -> Seq<u8> {
    Seq::new(
        (args.len() * ORDER_INFO_ARGS_LEN) as nat,
        |j: int| args[j / 14].packed()[j % 14],
    )
}

impl Orders {
    /// Orders holding `orders` in their first slots and zeroed arguments in the rest.
    #[inline(always)]
    pub fn new<const N: usize>(orders: [OrderInfoArgs; N]) -> (r: Self) where
        [OrderInfoArgs; N]: UpToFive<N>,
        requires
            N <= MAX_ORDERS_USIZE,
        ensures
            r@.num_orders == N,
            r@.order_args.len() == MAX_ORDERS_USIZE,
            r@.order_args.subrange(0, N as int) == orders@,
            forall|i: int| N <= i < MAX_ORDERS_USIZE ==> r@.order_args[i] == zeroed_args(),
    {
        let zero = OrderInfoArgs::new(0, 0, 0, 0);
        let mut args = [zero; MAX_ORDERS_USIZE];
        let mut i: usize = 0;
        while i < N
            invariant
                0 <= i <= N,
                N <= MAX_ORDERS_USIZE,
                args@.len() == MAX_ORDERS_USIZE,
                forall|j: int| 0 <= j < i ==> args@[j] == orders@[j],
                forall|j: int| i <= j < MAX_ORDERS_USIZE ==> args@[j] == zeroed_args(),
            decreases N - i,
        {
            args[i] = orders[i];
            i = i + 1;
        }
        let r = Orders { num_orders: N as u8, order_args: args };
        assert(r@.order_args.subrange(0, N as int) =~= orders@);
        r
    }

    /// The order arguments in slots `0..num_orders`, in order.
    #[inline(always)]
    pub fn into_order_args_iter(self) -> (r: Vec<OrderInfoArgs>)
        ensures
            r@ == self@.order_args.take(
                if self@.num_orders < MAX_ORDERS_USIZE {
                    self@.num_orders as int
                } else {
                    MAX_ORDERS_USIZE as int
                },
            ),
    {
        let n: usize = if (self.num_orders as usize) < MAX_ORDERS_USIZE {
            self.num_orders as usize
        } else {
            MAX_ORDERS_USIZE
        };
        let mut r: Vec<OrderInfoArgs> = Vec::new();
        let mut i: usize = 0;
        while i < n
            invariant
                0 <= i <= n,
                n <= MAX_ORDERS_USIZE,
                r@ == self.order_args@.take(i as int),
            decreases n - i,
        {
            r.push(self.order_args[i]);
            i = i + 1;
            assert(r@ =~= self.order_args@.take(i as int));
        }
        r
    }

    #[inline(always)]
    pub fn num_orders(&self) -> (r: u8)
        ensures
            r == self@.num_orders,
    {
        self.num_orders
    }

    /// The orders packed at the start of `data`, or the program error `InvalidInstructionData`
    /// (the error of the builtin value [`INVALID_INSTRUCTION_DATA`]) if `data` is shorter than
    /// [`ORDERS_LEN`].
    pub fn unpack(data: &[u8]) -> (r: Result<Orders, ProgramError>)
        ensures
            data@.len() >= ORDERS_LEN ==> (r matches Ok(o) && o.packed() == data@.subrange(
                0,
                ORDERS_LEN as int,
            )),
            data@.len() < ORDERS_LEN ==> r == Err::<Orders, ProgramError>(
                solana_program_error_of(INVALID_INSTRUCTION_DATA),
            ),
    {
        if data.len() < ORDERS_LEN {
            return Err(solana_program_error_from_code(INVALID_INSTRUCTION_DATA));
        }
        let zero = OrderInfoArgs::new(0, 0, 0, 0);
        let mut args = [zero; MAX_ORDERS_USIZE];
        let mut i: usize = 0;
        while i < MAX_ORDERS_USIZE
            invariant
                0 <= i <= MAX_ORDERS_USIZE,
                data@.len() >= ORDERS_LEN,
                args@.len() == MAX_ORDERS_USIZE,
                forall|k: int|
                    0 <= k < i ==> (#[trigger] args@[k]).packed() == data@.subrange(
                        1 + 14 * k,
                        1 + 14 * k + 14,
                    ),
            decreases MAX_ORDERS_USIZE - i,
        {
            args[i] = OrderInfoArgs::read_bytes(data, 1 + 14 * i);
            i = i + 1;
        }
        let r = Orders { num_orders: data[0], order_args: args };
        proof {
            let p = r.packed();
            let d = data@.subrange(0, ORDERS_LEN as int);
            assert forall|j: int| 0 <= j < ORDERS_LEN implies p[j] == d[j] by {
                if j >= 1 {
                    let k = (j - 1) / 14;
                    assert(0 <= k < 5);
                    assert(args@[k].packed() == data@.subrange(1 + 14 * k, 1 + 14 * k + 14));
                    assert(args@[k].packed()[(j - 1) % 14] == data@[1 + 14 * k + (j - 1) % 14]);
                }
            }
            assert(p =~= d);
        }
        Ok(r)
    }
}

impl Pack<ORDERS_LEN> for Orders {
    /// The count, then the packed arguments of every slot.
    closed spec fn packed(&self) -> Seq<u8> {
        seq![self.num_orders] + packed_slots(self.order_args@)
    }

    fn pack_into_slice(&self, dst: &mut [u8; ORDERS_LEN]) {
        dst[0] = self.num_orders;
        let mut i: usize = 0;
        while i < MAX_ORDERS_USIZE
            invariant
                0 <= i <= MAX_ORDERS_USIZE,
                dst@.len() == ORDERS_LEN,
                dst@[0] == self.num_orders,
                forall|j: int| 1 <= j < 1 + 14 * i ==> dst@[j] == self.packed()[j],
            decreases MAX_ORDERS_USIZE - i,
        {
            let b = self.order_args[i].pack();
            let mut k: usize = 0;
            while k < ORDER_INFO_ARGS_LEN
                invariant
                    0 <= k <= ORDER_INFO_ARGS_LEN,
                    i < MAX_ORDERS_USIZE,
                    dst@.len() == ORDERS_LEN,
                    dst@[0] == self.num_orders,
                    b@ == self.order_args@[i as int].packed(),
                    forall|j: int| 1 <= j < 1 + 14 * i + k ==> dst@[j] == self.packed()[j],
                decreases ORDER_INFO_ARGS_LEN - k,
            {
                dst[1 + 14 * i + k] = b[k];
                proof {
                    let j = 1 + 14 * i + k;
                    assert((j - 1) / 14 == i as int);
                    assert((j - 1) % 14 == k as int);
                }
                k = k + 1;
            }
            i = i + 1;
        }
        assert(dst@ =~= self.packed());
    }
}

/// Unpacking packed orders gives them back: equal packed bytes mean equal orders.
pub proof fn lemma_orders_packed_injective(a: Orders, b: Orders)
    requires
        a.packed() == b.packed(),
    ensures
        a@ == b@,
{
    assert(a.packed()[0] == a@.num_orders);
    assert(b.packed()[0] == b@.num_orders);
    assert forall|k: int| 0 <= k < MAX_ORDERS_USIZE implies a@.order_args[k] == b@.order_args[k] by {
        let pa = a@.order_args[k].packed();
        let pb = b@.order_args[k].packed();
        assert forall|m: int| 0 <= m < 14 implies pa[m] == pb[m] by {
            let j = 1 + 14 * k + m;
            assert((j - 1) / 14 == k && (j - 1) % 14 == m);
            assert(a.packed()[j] == pa[m]);
            assert(b.packed()[j] == pb[m]);
        }
        assert(pa =~= pb);
        lemma_order_info_args_roundtrip(a@.order_args[k], b@.order_args[k]);
    }
    assert(a@.order_args =~= b@.order_args);
}

} // verus!
