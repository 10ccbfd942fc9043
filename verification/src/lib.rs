//! A dictionary lookup bot's core: how an inbound chat update is classified,
//! how a lookup's outcome becomes a reply, and how entries are rendered into
//! markup. Nothing here performs I/O; the transport and the storage are driven
//! by the caller, one [`router::Action`] at a time.

pub mod text;

pub mod decimal;

pub mod markup;

pub mod entry;

pub mod card;

pub mod listing;

pub mod command;

pub mod store;

pub mod router;
