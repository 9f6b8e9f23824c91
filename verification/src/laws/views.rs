//! Laws of views: the values that the other laws speak of are those that the program
//! holds, field by field.

use vstd::prelude::*;

use crate::agent::{Action, ActionView};
use crate::api::{
    command_views, offer_views, AccountResponse, Command, CommandView, CreateAccountResponse,
    CreateRentalRequest, DepositResponse, HealthResponse, Offer, PayoutRequest, RegisterRequest,
    RegisterResponse, RentalResponse, ReportRequest,
};
use crate::bench::tables::{row_views, Row};
use crate::benchmark::{gpu_views, GpuInfo};
use crate::billing::texts;
use crate::db::{AccountRow, CommandRow, InvoiceRow, LedgerRow, MachineRow, RentalRow, Tables};
use crate::error::ApiError;
use crate::lightning::Invoice;
use crate::mlx::{Launch, MlxTask, MlxTaskView};
use crate::runtime::{running_views, ContainerPlan, RentalSpec, RunningRental, Started};

verus! {

/// A row is seen as it is stored: every field stands for itself, and a text for its
/// characters.
pub proof fn rows_are_seen_as_they_are(
    machine_row: MachineRow,
    rental_row: RentalRow,
    account_row: AccountRow,
    invoice_row: InvoiceRow,
    ledger_row: LedgerRow,
    command_row: CommandRow,
)
    ensures
        machine_row@.id == machine_row.id,
        machine_row@.agent_token == machine_row.agent_token@,
        machine_row@.host_id == machine_row.host_id@,
        machine_row@.gpu_name == machine_row.gpu_name@,
        machine_row@.gpu_count == machine_row.gpu_count,
        machine_row@.vram_mb == machine_row.vram_mb,
        machine_row@.cpu_name == machine_row.cpu_name@,
        machine_row@.cpu_cores == machine_row.cpu_cores,
        machine_row@.ram_mb == machine_row.ram_mb,
        machine_row@.disk_gb == machine_row.disk_gb,
        machine_row@.disk_type == machine_row.disk_type,
        machine_row@.public_ip == machine_row.public_ip@,
        machine_row@.port_start == machine_row.port_start,
        machine_row@.port_end == machine_row.port_end,
        machine_row@.inet_down_mbps == machine_row.inet_down_mbps,
        machine_row@.inet_up_mbps == machine_row.inet_up_mbps,
        machine_row.country is Some ==> machine_row@.country == Some(machine_row.country->0@),
        machine_row.country is None ==> machine_row@.country is None,
        machine_row@.dlperf == machine_row.dlperf,
        machine_row@.rate_sats_per_min == machine_row.rate_sats_per_min,
        machine_row@.payout_balance == machine_row.payout_balance,
        machine_row@.online == machine_row.online,
        machine_row@.last_heartbeat == machine_row.last_heartbeat,
        machine_row@.hw_fingerprint == machine_row.hw_fingerprint@,
        machine_row@.created_at == machine_row.created_at,
        rental_row@.id == rental_row.id,
        rental_row@.machine_id == rental_row.machine_id,
        rental_row@.account_id == rental_row.account_id@,
        rental_row@.image == rental_row.image@,
        rental_row@.ssh_pubkey == rental_row.ssh_pubkey@,
        rental_row@.status == rental_row.status,
        rental_row@.kind == rental_row.kind,
        rental_row.ssh_host is Some ==> rental_row@.ssh_host == Some(rental_row.ssh_host->0@),
        rental_row.ssh_host is None ==> rental_row@.ssh_host is None,
        rental_row@.ssh_port == rental_row.ssh_port,
        rental_row.container_id is Some ==> rental_row@.container_id == Some(rental_row.container_id->0@),
        rental_row.container_id is None ==> rental_row@.container_id is None,
        rental_row.error is Some ==> rental_row@.error == Some(rental_row.error->0@),
        rental_row.error is None ==> rental_row@.error is None,
        rental_row@.rate_sats_per_min == rental_row.rate_sats_per_min,
        rental_row@.sats_charged == rental_row.sats_charged,
        rental_row@.minutes_billed == rental_row.minutes_billed,
        rental_row@.paid_through == rental_row.paid_through,
        rental_row@.created_at == rental_row.created_at,
        rental_row@.ended_at == rental_row.ended_at,
        account_row@.id == account_row.id@,
        account_row@.balance_sats == account_row.balance_sats,
        account_row@.created_at == account_row.created_at,
        invoice_row@.payment_hash == invoice_row.payment_hash@,
        invoice_row@.account_id == invoice_row.account_id@,
        invoice_row@.sats == invoice_row.sats,
        invoice_row@.bolt11 == invoice_row.bolt11@,
        invoice_row@.settled == invoice_row.settled,
        invoice_row@.created_at == invoice_row.created_at,
        ledger_row@.ts == ledger_row.ts,
        ledger_row@.kind == ledger_row.kind,
        ledger_row@.delta_sats == ledger_row.delta_sats,
        ledger_row.account_id is Some ==> ledger_row@.account_id == Some(ledger_row.account_id->0@),
        ledger_row.account_id is None ==> ledger_row@.account_id is None,
        ledger_row@.machine_id == ledger_row.machine_id,
        ledger_row@.rental_id == ledger_row.rental_id,
        ledger_row.note is Some ==> ledger_row@.note == Some(ledger_row.note->0@),
        ledger_row.note is None ==> ledger_row@.note is None,
        command_row@.machine_id == command_row.machine_id,
        command_row@.payload == command_row.payload@,
        command_row@.delivered == command_row.delivered,
        command_row@.created_at == command_row.created_at,
{
}

/// A request is seen as it was sent.
pub proof fn requests_are_seen_as_they_are(
    register_request: RegisterRequest,
    report_request: ReportRequest,
    payout_request: PayoutRequest,
    create_rental_request: CreateRentalRequest,
)
    ensures
        register_request@.host_id == register_request.host_id@,
        register_request@.gpu_name == register_request.gpu_name@,
        register_request@.gpu_count == register_request.gpu_count,
        register_request@.vram_mb == register_request.vram_mb,
        register_request@.cpu_name == register_request.cpu_name@,
        register_request@.cpu_cores == register_request.cpu_cores,
        register_request@.ram_mb == register_request.ram_mb,
        register_request@.disk_gb == register_request.disk_gb,
        register_request@.disk_type == register_request.disk_type,
        register_request@.public_ip == register_request.public_ip@,
        register_request@.port_start == register_request.port_start,
        register_request@.port_end == register_request.port_end,
        register_request@.inet_down_mbps == register_request.inet_down_mbps,
        register_request@.inet_up_mbps == register_request.inet_up_mbps,
        register_request.country is Some ==> register_request@.country == Some(register_request.country->0@),
        register_request.country is None ==> register_request@.country is None,
        register_request@.dlperf == register_request.dlperf,
        register_request@.rate_sats_per_min == register_request.rate_sats_per_min,
        register_request@.hw_fingerprint == register_request.hw_fingerprint@,
        report_request@.rental_id == report_request.rental_id,
        report_request@.status == report_request.status,
        report_request@.kind == report_request.kind,
        report_request@.ssh_port == report_request.ssh_port,
        report_request.container_id is Some ==> report_request@.container_id == Some(report_request.container_id->0@),
        report_request.container_id is None ==> report_request@.container_id is None,
        report_request.error is Some ==> report_request@.error == Some(report_request.error->0@),
        report_request.error is None ==> report_request@.error is None,
        payout_request@.bolt11 == payout_request.bolt11@,
        create_rental_request@.machine_id == create_rental_request.machine_id,
        create_rental_request@.account_id == create_rental_request.account_id@,
        create_rental_request@.image == create_rental_request.image@,
        create_rental_request.ssh_pubkey is Some ==> create_rental_request@.ssh_pubkey == Some(create_rental_request.ssh_pubkey->0@),
        create_rental_request.ssh_pubkey is None ==> create_rental_request@.ssh_pubkey is None,
{
}

/// An answer is seen as it is given.
pub proof fn answers_are_seen_as_they_are(
    register_response: RegisterResponse,
    offer: Offer,
    create_account_response: CreateAccountResponse,
    account_response: AccountResponse,
    deposit_response: DepositResponse,
    rental_response: RentalResponse,
    health_response: HealthResponse,
    api_error: ApiError,
    invoice: Invoice,
)
    ensures
        register_response@.machine_id == register_response.machine_id,
        register_response@.agent_token == register_response.agent_token@,
        offer@.machine_id == offer.machine_id,
        offer@.gpu_name == offer.gpu_name@,
        offer@.gpu_count == offer.gpu_count,
        offer@.vram_mb == offer.vram_mb,
        offer@.cpu_name == offer.cpu_name@,
        offer@.cpu_cores == offer.cpu_cores,
        offer@.ram_mb == offer.ram_mb,
        offer@.disk_gb == offer.disk_gb,
        offer@.disk_type == offer.disk_type,
        offer@.public_ip == offer.public_ip@,
        offer.country is Some ==> offer@.country == Some(offer.country->0@),
        offer.country is None ==> offer@.country is None,
        offer@.inet_down_mbps == offer.inet_down_mbps,
        offer@.inet_up_mbps == offer.inet_up_mbps,
        offer@.dlperf == offer.dlperf,
        offer@.rate_sats_per_min == offer.rate_sats_per_min,
        offer@.rate_sats_per_hour == offer.rate_sats_per_hour,
        create_account_response@.account_id == create_account_response.account_id@,
        account_response@.account_id == account_response.account_id@,
        account_response@.balance_sats == account_response.balance_sats,
        account_response@.burn_sats_per_min == account_response.burn_sats_per_min,
        account_response@.runway_minutes == account_response.runway_minutes,
        deposit_response@.bolt11 == deposit_response.bolt11@,
        deposit_response@.payment_hash == deposit_response.payment_hash@,
        deposit_response@.sats == deposit_response.sats,
        rental_response@.id == rental_response.id,
        rental_response@.machine_id == rental_response.machine_id,
        rental_response@.account_id == rental_response.account_id@,
        rental_response@.image == rental_response.image@,
        rental_response@.status == rental_response.status,
        rental_response@.kind == rental_response.kind,
        rental_response@.gpu_name == rental_response.gpu_name@,
        rental_response@.gpu_count == rental_response.gpu_count,
        rental_response.ssh_host is Some ==> rental_response@.ssh_host == Some(rental_response.ssh_host->0@),
        rental_response.ssh_host is None ==> rental_response@.ssh_host is None,
        rental_response@.ssh_port == rental_response.ssh_port,
        rental_response.ssh_command is Some ==> rental_response@.ssh_command == Some(rental_response.ssh_command->0@),
        rental_response.ssh_command is None ==> rental_response@.ssh_command is None,
        rental_response@.rate_sats_per_min == rental_response.rate_sats_per_min,
        rental_response@.sats_charged == rental_response.sats_charged,
        rental_response@.minutes_billed == rental_response.minutes_billed,
        rental_response@.paid_through == rental_response.paid_through,
        rental_response.error is Some ==> rental_response@.error == Some(rental_response.error->0@),
        rental_response.error is None ==> rental_response@.error is None,
        rental_response@.created_at == rental_response.created_at,
        rental_response@.ended_at == rental_response.ended_at,
        health_response@.ok == health_response.ok,
        health_response@.ln_backend == health_response.ln_backend@,
        api_error@.status == api_error.status,
        api_error@.message == api_error.message@,
        invoice@.bolt11 == invoice.bolt11@,
        invoice@.payment_hash == invoice.payment_hash@,
{
}

/// What a host runs and shows is seen as it is.
pub proof fn workloads_are_seen_as_they_are(
    running_rental: RunningRental,
    rental_spec: RentalSpec,
    started: Started,
    container_plan: ContainerPlan,
    launch: Launch,
    gpu_info: GpuInfo,
    row: Row,
)
    ensures
        running_rental@.rental_id == running_rental.rental_id,
        running_rental@.container_id == running_rental.container_id@,
        running_rental@.ssh_port == running_rental.ssh_port,
        rental_spec@.rental_id == rental_spec.rental_id,
        rental_spec@.image == rental_spec.image@,
        rental_spec@.ssh_pubkey == rental_spec.ssh_pubkey@,
        started@.container_id == started.container_id@,
        started@.ssh_port == started.ssh_port,
        started@.kind == started.kind,
        container_plan@.name == container_plan.name@,
        container_plan@.image == container_plan.image@,
        container_plan@.container_port == container_plan.container_port@,
        container_plan@.host_ip == container_plan.host_ip@,
        container_plan@.host_port == container_plan.host_port@,
        container_plan@.ssh_port == container_plan.ssh_port,
        container_plan@.gpu_count == container_plan.gpu_count,
        container_plan@.gpu_capability == container_plan.gpu_capability@,
        launch@.program == launch.program@,
        launch@.container_id == launch.container_id@,
        launch@.port == launch.port,
        launch@.kind == launch.kind,
        gpu_info@.name == gpu_info.name@,
        gpu_info@.uuid == gpu_info.uuid@,
        gpu_info@.pci_bus_id == gpu_info.pci_bus_id@,
        gpu_info@.vram_mb == gpu_info.vram_mb,
        row@.a == row.a@,
        row@.b == row.b@,
        row@.c == row.c@,
{
}

/// Commands, actions and tasks are seen as they are.
pub proof fn choices_are_seen_as_they_are(command: Command, action: Action, task: MlxTask)
    ensures
        command matches Command::StartRental { rental_id, image, ssh_pubkey } ==> command@
            == (CommandView::StartRental { rental_id, image: image@, ssh_pubkey: ssh_pubkey@ }),
        command matches Command::StopRental { rental_id } ==> command@ == (
        CommandView::StopRental { rental_id }),
        action matches Action::Start(spec) ==> action@ == ActionView::Start(spec@),
        action matches Action::Stop(id) ==> action@ == ActionView::Stop(id),
        task matches MlxTask::Gemm { n } ==> task@ == (MlxTaskView::Gemm { n }),
        task matches MlxTask::Generate { model } ==> task@ == (MlxTaskView::Generate {
            model: model@,
        }),
{
}

/// Lists are seen item by item, and the tables row by row.
pub proof fn lists_are_seen_item_by_item(
    i: int,
    tables: Tables,
    plan: ContainerPlan,
    launch: Launch,
    commands: Seq<Command>,
    offers: Seq<Offer>,
    running: Seq<RunningRental>,
    gpus: Seq<GpuInfo>,
    rows: Seq<Row>,
    strings: Seq<String>,
)
    ensures
        tables@.machines.len() == tables.machines@.len(),
        tables@.accounts.len() == tables.accounts@.len(),
        tables@.rentals.len() == tables.rentals@.len(),
        tables@.invoices.len() == tables.invoices@.len(),
        tables@.ledger.len() == tables.ledger@.len(),
        tables@.commands.len() == tables.commands@.len(),
        0 <= i < tables.machines@.len() ==> tables@.machines[i] == tables.machines@[i]@,
        0 <= i < tables.accounts@.len() ==> tables@.accounts[i] == tables.accounts@[i]@,
        0 <= i < tables.rentals@.len() ==> tables@.rentals[i] == tables.rentals@[i]@,
        0 <= i < tables.invoices@.len() ==> tables@.invoices[i] == tables.invoices@[i]@,
        0 <= i < tables.ledger@.len() ==> tables@.ledger[i] == tables.ledger@[i]@,
        0 <= i < tables.commands@.len() ==> tables@.commands[i] == tables.commands@[i]@,
        plan@.env.len() == plan.env@.len(),
        plan@.labels.len() == plan.labels@.len(),
        0 <= i < plan.env@.len() ==> plan@.env[i] == plan.env@[i]@,
        0 <= i < plan.labels@.len() ==> plan@.labels[i] == (
            plan.labels@[i].0@,
            plan.labels@[i].1@,
        ),
        launch@.args.len() == launch.args@.len(),
        0 <= i < launch.args@.len() ==> launch@.args[i] == launch.args@[i]@,
        command_views(commands).len() == commands.len(),
        0 <= i < commands.len() ==> command_views(commands)[i] == commands[i]@,
        offer_views(offers).len() == offers.len(),
        0 <= i < offers.len() ==> offer_views(offers)[i] == offers[i]@,
        running_views(running).len() == running.len(),
        0 <= i < running.len() ==> running_views(running)[i] == running[i]@,
        gpu_views(gpus).len() == gpus.len(),
        0 <= i < gpus.len() ==> gpu_views(gpus)[i] == gpus[i]@,
        row_views(rows).len() == rows.len(),
        0 <= i < rows.len() ==> row_views(rows)[i] == rows[i]@,
        texts(strings).len() == strings.len(),
        0 <= i < strings.len() ==> texts(strings)[i] == strings[i]@,
{
}

} // verus!
