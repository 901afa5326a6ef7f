pub mod producers;
